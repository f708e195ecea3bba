use vstd::prelude::*;
use crate::loc::{Loc, LocView};

verus! {

/// The kind of a token. `Start` is the kind that stands for "no token yet".
#[derive(Debug, Clone, Copy, PartialEq, Eq, Structural)]
pub enum TokenType {
    // Special tokens
    Start,
    Eof,
    // Keywords
    Break,
    Case,
    Continue,
    Default,
    Else,
    For,
    Func,
    If,
    Package,
    Return,
    Struct,
    Switch,
    Type,
    Var,
    // Built-in words
    Append,
    Print,
    Println,
    // Names and literals
    Blank,
    Int,
    IntOct,
    IntHex,
    Float,
    String,
    Rune,
    Id,
    // Operators and punctuation
    Plus,
    Minus,
    Star,
    Slash,
    Percent,
    PlusEq,
    MinusEq,
    StarEq,
    SlashEq,
    PercentEq,
    Assign,
    ColonEq,
    Bitand,
    Bitor,
    Bitnot,
    BitandEq,
    BitorEq,
    LeftShift,
    RightShift,
    BitClear,
    LeftShiftEq,
    RightShiftEq,
    And,
    Or,
    Not,
    Incr,
    Decr,
    Eq,
    Ne,
    Lt,
    Le,
    Gt,
    Ge,
    LParen,
    RParen,
    LBracket,
    RBracket,
    LBrace,
    RBrace,
    Comma,
    Dot,
    Semi,
    Colon,
}

impl TokenType {
    /// How a kind is written: the spelling of a keyword, an operator or a
    /// punctuation mark, and a bracketed name for the kinds that have no
    /// fixed spelling.
    pub open spec fn text(self) -> Seq<char> {
        match self {
            TokenType::Eof => "<eof>"@,
            TokenType::Start => "<none>"@,
            TokenType::Break => "break"@,
            TokenType::Case => "case"@,
            TokenType::Continue => "continue"@,
            TokenType::Default => "default"@,
            TokenType::Else => "else"@,
            TokenType::For => "for"@,
            TokenType::Func => "func"@,
            TokenType::If => "if"@,
            TokenType::Package => "package"@,
            TokenType::Return => "return"@,
            TokenType::Struct => "struct"@,
            TokenType::Switch => "switch"@,
            TokenType::Type => "type"@,
            TokenType::Var => "var"@,
            TokenType::Append => "append"@,
            TokenType::Print => "print"@,
            TokenType::Println => "println"@,
            TokenType::Blank => "_"@,
            TokenType::Int => "<int>"@,
            TokenType::IntOct => "<int oct>"@,
            TokenType::IntHex => "<int hex>"@,
            TokenType::Float => "<float>"@,
            TokenType::String => "<string>"@,
            TokenType::Rune => "<rune>"@,
            TokenType::Id => "<id>"@,
            TokenType::Plus => "+"@,
            TokenType::Minus => "-"@,
            TokenType::Star => "*"@,
            TokenType::Slash => "/"@,
            TokenType::Percent => "%"@,
            TokenType::PlusEq => "+="@,
            TokenType::MinusEq => "-="@,
            TokenType::StarEq => "*="@,
            TokenType::SlashEq => "/="@,
            TokenType::PercentEq => "%="@,
            TokenType::Assign => "="@,
            TokenType::ColonEq => ":="@,
            TokenType::Bitand => "&"@,
            TokenType::Bitor => "|"@,
            TokenType::Bitnot => "^"@,
            TokenType::BitandEq => "&="@,
            TokenType::BitorEq => "|="@,
            TokenType::LeftShift => "<<"@,
            TokenType::RightShift => ">>"@,
            TokenType::LeftShiftEq => "<<="@,
            TokenType::RightShiftEq => ">>="@,
            TokenType::BitClear => "&^"@,
            TokenType::And => "&&"@,
            TokenType::Or => "||"@,
            TokenType::Not => "!"@,
            TokenType::Incr => "++"@,
            TokenType::Decr => "--"@,
            TokenType::Eq => "=="@,
            TokenType::Ne => "!="@,
            TokenType::Lt => "<"@,
            TokenType::Le => "<="@,
            TokenType::Gt => ">"@,
            TokenType::Ge => ">="@,
            TokenType::LParen => "("@,
            TokenType::RParen => ")"@,
            TokenType::LBracket => "["@,
            TokenType::RBracket => "]"@,
            TokenType::LBrace => "{"@,
            TokenType::RBrace => "}"@,
            TokenType::Comma => ","@,
            TokenType::Dot => "."@,
            TokenType::Semi => ";"@,
            TokenType::Colon => ":"@,
        }
    }

    /// True for the operators and punctuation marks.
    pub open spec fn is_operator(self) -> bool {
        match self {
            TokenType::Plus | TokenType::Minus | TokenType::Star | TokenType::Slash
            | TokenType::Percent | TokenType::PlusEq | TokenType::MinusEq | TokenType::StarEq
            | TokenType::SlashEq | TokenType::PercentEq | TokenType::Assign | TokenType::ColonEq
            | TokenType::Bitand | TokenType::Bitor | TokenType::Bitnot | TokenType::BitandEq
            | TokenType::BitorEq | TokenType::LeftShift | TokenType::RightShift
            | TokenType::BitClear | TokenType::LeftShiftEq | TokenType::RightShiftEq
            | TokenType::And | TokenType::Or | TokenType::Not | TokenType::Incr | TokenType::Decr
            | TokenType::Eq | TokenType::Ne | TokenType::Lt | TokenType::Le | TokenType::Gt
            | TokenType::Ge | TokenType::LParen | TokenType::RParen | TokenType::LBracket
            | TokenType::RBracket | TokenType::LBrace | TokenType::RBrace | TokenType::Comma
            | TokenType::Dot | TokenType::Semi | TokenType::Colon => true,
            _ => false,
        }
    }

    /// True for the reserved words, the built-in words among them.
    pub open spec fn is_keyword(self) -> bool {
        match self {
            TokenType::Break | TokenType::Case | TokenType::Continue | TokenType::Default
            | TokenType::Else | TokenType::For | TokenType::Func | TokenType::If
            | TokenType::Package | TokenType::Return | TokenType::Struct | TokenType::Switch
            | TokenType::Type | TokenType::Var | TokenType::Append | TokenType::Print
            | TokenType::Println => true,
            _ => false,
        }
    }

    /// The text that stands for this kind in a diagnostic.
    pub fn to_str(&self) -> (r: &'static str)
        ensures
            r@ == self.text(),
    {
        match *self {
            TokenType::Eof => "<eof>",
            TokenType::Start => "<none>",
            TokenType::Break => "break",
            TokenType::Case => "case",
            TokenType::Continue => "continue",
            TokenType::Default => "default",
            TokenType::Else => "else",
            TokenType::For => "for",
            TokenType::Func => "func",
            TokenType::If => "if",
            TokenType::Package => "package",
            TokenType::Return => "return",
            TokenType::Struct => "struct",
            TokenType::Switch => "switch",
            TokenType::Type => "type",
            TokenType::Var => "var",
            TokenType::Append => "append",
            TokenType::Print => "print",
            TokenType::Println => "println",
            TokenType::Blank => "_",
            TokenType::Int => "<int>",
            TokenType::IntOct => "<int oct>",
            TokenType::IntHex => "<int hex>",
            TokenType::Float => "<float>",
            TokenType::String => "<string>",
            TokenType::Rune => "<rune>",
            TokenType::Id => "<id>",
            TokenType::Plus => "+",
            TokenType::Minus => "-",
            TokenType::Star => "*",
            TokenType::Slash => "/",
            TokenType::Percent => "%",
            TokenType::PlusEq => "+=",
            TokenType::MinusEq => "-=",
            TokenType::StarEq => "*=",
            TokenType::SlashEq => "/=",
            TokenType::PercentEq => "%=",
            TokenType::Assign => "=",
            TokenType::ColonEq => ":=",
            TokenType::Bitand => "&",
            TokenType::Bitor => "|",
            TokenType::Bitnot => "^",
            TokenType::BitandEq => "&=",
            TokenType::BitorEq => "|=",
            TokenType::LeftShift => "<<",
            TokenType::RightShift => ">>",
            TokenType::LeftShiftEq => "<<=",
            TokenType::RightShiftEq => ">>=",
            TokenType::BitClear => "&^",
            TokenType::And => "&&",
            TokenType::Or => "||",
            TokenType::Not => "!",
            TokenType::Incr => "++",
            TokenType::Decr => "--",
            TokenType::Eq => "==",
            TokenType::Ne => "!=",
            TokenType::Lt => "<",
            TokenType::Le => "<=",
            TokenType::Gt => ">",
            TokenType::Ge => ">=",
            TokenType::LParen => "(",
            TokenType::RParen => ")",
            TokenType::LBracket => "[",
            TokenType::RBracket => "]",
            TokenType::LBrace => "{",
            TokenType::RBrace => "}",
            TokenType::Comma => ",",
            TokenType::Dot => ".",
            TokenType::Semi => ";",
            TokenType::Colon => ":",
        }
    }
}

/// A token as contracts see it.
pub struct TokenView {
    pub ty: TokenType,
    pub loc: LocView,
    pub lexeme: Option<Seq<char>>,
}

/// One token: its kind, where it starts, and its text where the kind has no
/// fixed spelling (names and literals).
#[derive(Debug)]
pub struct Token {
    pub ty: TokenType,
    pub loc: Loc,
    pub lexeme: Option<String>,
}

impl View for Token {
    type V = TokenView;

    open spec fn view(&self) -> TokenView {
        TokenView {
            ty: self.ty,
            loc: self.loc@,
            lexeme: match self.lexeme {
                Some(s) => Some(s@),
                None => None,
            },
        }
    }
}

impl Token {
    pub fn new(ty: TokenType, loc: Loc, lexeme: Option<String>) -> (r: Token)
        ensures
            r == (Token { ty: ty, loc: loc, lexeme: lexeme }),
    {
        Token { ty: ty, loc: loc, lexeme: lexeme }
    }

    pub fn is_eof(&self) -> (r: bool)
        ensures
            r == (self.ty == TokenType::Eof),
    {
        self.ty == TokenType::Eof
    }
}

} // verus!
