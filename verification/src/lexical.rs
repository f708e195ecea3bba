//! The lexical grammar, as pure functions of a source text and a position.
//!
//! A source text is a sequence of bytes, and each byte is read as the
//! character with that code. Positions are indices into the sequence; the
//! line and the column of a position are functions of the text before it.

use vstd::prelude::*;
use crate::error::ErrorTypeView;
use crate::loc::LocView;
use crate::token::TokenType;

verus! {

/// The character at index `i`, and the NUL character past either end.
pub open spec fn char_at(src: Seq<u8>, i: int) -> char {
    if 0 <= i < src.len() {
        src[i] as char
    } else {
        '\0'
    }
}

pub open spec fn whitespace(c: char) -> bool {
    c == ' ' || c == '\t' || c == '\n'
}

pub open spec fn alpha(c: char) -> bool {
    c == '_' || ('a' <= c <= 'z') || ('A' <= c <= 'Z')
}

pub open spec fn digit(c: char) -> bool {
    '0' <= c <= '9'
}

pub open spec fn octal(c: char) -> bool {
    '0' <= c <= '7'
}

pub open spec fn hex(c: char) -> bool {
    digit(c) || ('a' <= c <= 'f') || ('A' <= c <= 'F')
}

pub open spec fn alnum(c: char) -> bool {
    alpha(c) || digit(c)
}

/// The kinds after which a line end terminates a statement.
pub open spec fn needs_semicolon(last: TokenType) -> bool {
    match last {
        TokenType::Id | TokenType::Blank | TokenType::Int | TokenType::IntOct
        | TokenType::IntHex | TokenType::Float | TokenType::Rune | TokenType::String
        | TokenType::Break | TokenType::Continue | TokenType::Return | TokenType::Incr
        | TokenType::Decr | TokenType::RParen | TokenType::RBracket | TokenType::RBrace
        | TokenType::Eof => true,
        _ => false,
    }
}

/// The line of position `i`: one more than the number of newlines before it.
pub open spec fn line_at(src: Seq<u8>, i: int) -> nat
    decreases i,
{
    if i <= 0 {
        1
    } else if char_at(src, i - 1) == '\n' {
        line_at(src, i - 1) + 1
    } else {
        line_at(src, i - 1)
    }
}

/// The column of position `i`: one more than the number of characters
/// between the last newline before it (or the start of the text) and it.
pub open spec fn col_at(src: Seq<u8>, i: int) -> nat
    decreases i,
{
    if i <= 0 {
        1
    } else if char_at(src, i - 1) == '\n' {
        1
    } else {
        col_at(src, i - 1) + 1
    }
}

/// The location of position `i` of the text `src` named `file`.
pub open spec fn loc_at(file: Seq<char>, src: Seq<u8>, i: int) -> LocView {
    LocView { filename: file, line: line_at(src, i), col: col_at(src, i) }
}

/// The characters of `src` from `start` up to `end`.
pub open spec fn text(src: Seq<u8>, start: int, end: int) -> Seq<char> {
    Seq::new((end - start) as nat, |k: int| char_at(src, start + k))
}

/// The bytes that spell `t`, one for each character. They read back as `t`
/// where no character of `t` has a code above 255.
pub open spec fn bytes_of(t: Seq<char>) -> Seq<u8> {
    Seq::new(t.len(), |i: int| t[i] as u8)
}

/// The classes of characters that make up runs.
#[derive(Debug, Clone, Copy, PartialEq, Eq, Structural)]
pub enum CharClass {
    Digit,
    Hex,
    Alnum,
    /// Anything but a newline: the body of a line comment.
    SameLine,
}

pub open spec fn in_class(class: CharClass, c: char) -> bool {
    match class {
        CharClass::Digit => digit(c),
        CharClass::Hex => hex(c),
        CharClass::Alnum => alnum(c),
        CharClass::SameLine => c != '\n',
    }
}

/// Where the longest run of characters of `class` that starts at `i` ends.
pub open spec fn run_end(src: Seq<u8>, i: int, class: CharClass) -> int
    decreases src.len() - i,
{
    if 0 <= i < src.len() && in_class(class, char_at(src, i)) {
        run_end(src, i + 1, class)
    } else {
        i
    }
}

/// What the grammar finds at a position: a token with its extent and, for the
/// kinds that have one, its text; or an error with the position it is
/// reported at.
pub enum Lexed {
    Token { kind: TokenType, start: int, end: int, text: Option<Seq<char>> },
    Failure { error: ErrorTypeView, at: int },
}

/// The operator or punctuation mark that the characters `a`, `b`, `c` begin
/// with, if any: the three-character ones are tried first, then those of two
/// characters, then those of one.
pub open spec fn operator_of(a: char, b: char, c: char) -> Option<TokenType> {
    if a == '<' && b == '<' && c == '=' {
        Some(TokenType::LeftShiftEq)
    } else if a == '>' && b == '>' && c == '=' {
        Some(TokenType::RightShiftEq)
    } else if a == ':' && b == '=' {
        Some(TokenType::ColonEq)
    } else if a == '+' && b == '=' {
        Some(TokenType::PlusEq)
    } else if a == '-' && b == '=' {
        Some(TokenType::MinusEq)
    } else if a == '*' && b == '=' {
        Some(TokenType::StarEq)
    } else if a == '/' && b == '=' {
        Some(TokenType::SlashEq)
    } else if a == '%' && b == '=' {
        Some(TokenType::PercentEq)
    } else if a == '|' && b == '=' {
        Some(TokenType::BitorEq)
    } else if a == '&' && b == '=' {
        Some(TokenType::BitandEq)
    } else if a == '+' && b == '+' {
        Some(TokenType::Incr)
    } else if a == '-' && b == '-' {
        Some(TokenType::Decr)
    } else if a == '<' && b == '<' {
        Some(TokenType::LeftShift)
    } else if a == '>' && b == '>' {
        Some(TokenType::RightShift)
    } else if a == '&' && b == '^' {
        Some(TokenType::BitClear)
    } else if a == '&' && b == '&' {
        Some(TokenType::And)
    } else if a == '|' && b == '|' {
        Some(TokenType::Or)
    } else if a == '=' && b == '=' {
        Some(TokenType::Eq)
    } else if a == '!' && b == '=' {
        Some(TokenType::Ne)
    } else if a == '<' && b == '=' {
        Some(TokenType::Le)
    } else if a == '>' && b == '=' {
        Some(TokenType::Ge)
    } else if a == '=' {
        Some(TokenType::Assign)
    } else if a == '+' {
        Some(TokenType::Plus)
    } else if a == '-' {
        Some(TokenType::Minus)
    } else if a == '*' {
        Some(TokenType::Star)
    } else if a == '/' {
        Some(TokenType::Slash)
    } else if a == '%' {
        Some(TokenType::Percent)
    } else if a == '^' {
        Some(TokenType::Bitnot)
    } else if a == '&' {
        Some(TokenType::Bitand)
    } else if a == '|' {
        Some(TokenType::Bitor)
    } else if a == '!' {
        Some(TokenType::Not)
    } else if a == '<' {
        Some(TokenType::Lt)
    } else if a == '>' {
        Some(TokenType::Gt)
    } else if a == '(' {
        Some(TokenType::LParen)
    } else if a == ')' {
        Some(TokenType::RParen)
    } else if a == '[' {
        Some(TokenType::LBracket)
    } else if a == ']' {
        Some(TokenType::RBracket)
    } else if a == '{' {
        Some(TokenType::LBrace)
    } else if a == '}' {
        Some(TokenType::RBrace)
    } else if a == ',' {
        Some(TokenType::Comma)
    } else if a == ';' {
        Some(TokenType::Semi)
    } else if a == ':' {
        Some(TokenType::Colon)
    } else if a == '.' {
        Some(TokenType::Dot)
    } else {
        None
    }
}

/// The operator or punctuation mark that starts at `p`, if any.
pub open spec fn operator_at(src: Seq<u8>, p: int) -> Option<TokenType> {
    operator_of(char_at(src, p), char_at(src, p + 1), char_at(src, p + 2))
}

/// The number of characters of an operator or punctuation mark.
pub open spec fn operator_len(kind: TokenType) -> int {
    match kind {
        TokenType::LeftShiftEq | TokenType::RightShiftEq => 3,
        TokenType::ColonEq | TokenType::PlusEq | TokenType::MinusEq | TokenType::StarEq
        | TokenType::SlashEq | TokenType::PercentEq | TokenType::BitorEq | TokenType::BitandEq
        | TokenType::Incr | TokenType::Decr | TokenType::LeftShift | TokenType::RightShift
        | TokenType::BitClear | TokenType::And | TokenType::Or | TokenType::Eq | TokenType::Ne
        | TokenType::Le | TokenType::Ge => 2,
        _ => 1,
    }
}

/// The kind of a word: the blank identifier, a reserved word, or a name.
pub open spec fn word_kind(word: Seq<char>) -> TokenType {
    if word == "_"@ {
        TokenType::Blank
    } else if word == "break"@ {
        TokenType::Break
    } else if word == "case"@ {
        TokenType::Case
    } else if word == "continue"@ {
        TokenType::Continue
    } else if word == "default"@ {
        TokenType::Default
    } else if word == "else"@ {
        TokenType::Else
    } else if word == "for"@ {
        TokenType::For
    } else if word == "func"@ {
        TokenType::Func
    } else if word == "if"@ {
        TokenType::If
    } else if word == "package"@ {
        TokenType::Package
    } else if word == "return"@ {
        TokenType::Return
    } else if word == "struct"@ {
        TokenType::Struct
    } else if word == "switch"@ {
        TokenType::Switch
    } else if word == "type"@ {
        TokenType::Type
    } else if word == "var"@ {
        TokenType::Var
    } else if word == "append"@ {
        TokenType::Append
    } else if word == "print"@ {
        TokenType::Print
    } else if word == "println"@ {
        TokenType::Println
    } else {
        TokenType::Id
    }
}

/// The word that starts at `p`: the longest run of letters, digits and
/// underscores. Only a name carries its text.
pub open spec fn word_at(src: Seq<u8>, p: int) -> Lexed {
    let end = run_end(src, p, CharClass::Alnum);
    let word = text(src, p, end);
    let kind = word_kind(word);
    Lexed::Token {
        kind: kind,
        start: p,
        end: end,
        text: if kind == TokenType::Id {
            Some(word)
        } else {
            None
        },
    }
}

/// True if `src` has the hexadecimal prefix, `0x` or `0X`, at `p`.
pub open spec fn hex_prefix_at(src: Seq<u8>, p: int) -> bool {
    char_at(src, p) == '0' && (char_at(src, p + 1) == 'x' || char_at(src, p + 1) == 'X')
}

/// The numeric literal that starts at `p`, where a digit stands, or a period
/// before a digit.
///
/// After `0x` or `0X` come hexadecimal digits, at least one, and the text of
/// the token leaves the prefix out. Otherwise the literal is a run of decimal
/// digits; a period after the run makes it a float, which goes on with the
/// digits behind the period. An integer that starts with `0` is octal and
/// holds octal digits only.
pub open spec fn number_at(src: Seq<u8>, p: int) -> Lexed {
    if hex_prefix_at(src, p) {
        let end = run_end(src, p + 2, CharClass::Hex);
        if end == p + 2 {
            Lexed::Failure { error: ErrorTypeView::MalformedHexLiteral, at: p }
        } else {
            Lexed::Token {
                kind: TokenType::IntHex,
                start: p,
                end: end,
                text: Some(text(src, p + 2, end)),
            }
        }
    } else {
        let end = run_end(src, p, CharClass::Digit);
        if char_at(src, end) == '.' {
            let stop = run_end(src, end + 1, CharClass::Digit);
            Lexed::Token {
                kind: TokenType::Float,
                start: p,
                end: stop,
                text: Some(text(src, p, stop)),
            }
        } else if char_at(src, p) == '0' {
            if forall|k: int| p <= k < end ==> octal(#[trigger] char_at(src, k)) {
                Lexed::Token {
                    kind: TokenType::IntOct,
                    start: p,
                    end: end,
                    text: Some(text(src, p, end)),
                }
            } else {
                Lexed::Failure { error: ErrorTypeView::MalformedOctLiteral, at: p }
            }
        } else {
            Lexed::Token { kind: TokenType::Int, start: p, end: end, text: Some(text(src, p, end)) }
        }
    }
}

/// The character that a backslash and `c` stand for, inside a literal that
/// `quote` closes.
pub open spec fn escape(c: char, quote: char) -> Option<char> {
    if c == 'a' {
        Some('\x07')
    } else if c == 'b' {
        Some('\x08')
    } else if c == 'f' {
        Some('\x0c')
    } else if c == 'n' {
        Some('\n')
    } else if c == 'r' {
        Some('\r')
    } else if c == 't' {
        Some('\t')
    } else if c == 'v' {
        Some('\x0b')
    } else if c == '\\' {
        Some('\\')
    } else if c == quote {
        Some(quote)
    } else {
        None
    }
}

/// The rest of an interpreted string that opened at `open`, read from `i`
/// on, when the characters in `content` have been read so far.
pub open spec fn string_from(src: Seq<u8>, open: int, i: int, content: Seq<char>) -> Lexed
    decreases src.len() - i,
{
    let c = char_at(src, i);
    if i < 0 || i >= src.len() {
        Lexed::Failure { error: ErrorTypeView::TrailingString, at: open }
    } else if c == '"' {
        Lexed::Token { kind: TokenType::String, start: open, end: i + 1, text: Some(content) }
    } else if c == '\\' {
        match escape(char_at(src, i + 1), '"') {
            Some(code) => string_from(src, open, i + 2, content.push(code)),
            None => Lexed::Failure {
                error: ErrorTypeView::InvalidEscape(char_at(src, i + 1)),
                at: i + 1,
            },
        }
    } else if c == '\n' {
        Lexed::Failure { error: ErrorTypeView::NewlineInString, at: i }
    } else {
        string_from(src, open, i + 1, content.push(c))
    }
}

/// The interpreted string whose opening quote stands at `p`.
pub open spec fn string_at(src: Seq<u8>, p: int) -> Lexed {
    string_from(src, p, p + 1, Seq::empty())
}

/// The rest of a raw string that opened at `open`, read from `i` on. A
/// backslash followed by `r` is left out of the content; everything else is
/// taken as it stands.
pub open spec fn raw_string_from(src: Seq<u8>, open: int, i: int, content: Seq<char>) -> Lexed
    decreases src.len() - i,
{
    let c = char_at(src, i);
    if i < 0 || i >= src.len() {
        Lexed::Failure { error: ErrorTypeView::TrailingString, at: open }
    } else if c == '`' {
        Lexed::Token { kind: TokenType::String, start: open, end: i + 1, text: Some(content) }
    } else if c == '\\' && char_at(src, i + 1) == 'r' {
        raw_string_from(src, open, i + 2, content)
    } else {
        raw_string_from(src, open, i + 1, content.push(c))
    }
}

/// The raw string whose opening back quote stands at `p`.
pub open spec fn raw_string_at(src: Seq<u8>, p: int) -> Lexed {
    raw_string_from(src, p, p + 1, Seq::empty())
}

/// The end of a rune that opened at `open` and holds `c`: the closing quote
/// must stand at `i`.
pub open spec fn rune_close(src: Seq<u8>, open: int, i: int, c: char) -> Lexed {
    if char_at(src, i) == '\'' {
        Lexed::Token { kind: TokenType::Rune, start: open, end: i + 1, text: Some(seq![c]) }
    } else {
        Lexed::Failure { error: ErrorTypeView::TrailingRune, at: open }
    }
}

/// The rune whose opening quote stands at `p`: one character or one escape
/// between two single quotes.
pub open spec fn rune_at(src: Seq<u8>, p: int) -> Lexed {
    let c = char_at(src, p + 1);
    if p + 1 >= src.len() {
        Lexed::Failure { error: ErrorTypeView::TrailingRune, at: p }
    } else if c == '\\' {
        match escape(char_at(src, p + 2), '\'') {
            Some(code) => rune_close(src, p, p + 3, code),
            None => Lexed::Failure {
                error: ErrorTypeView::InvalidEscape(char_at(src, p + 2)),
                at: p + 2,
            },
        }
    } else if c == '\n' {
        Lexed::Failure { error: ErrorTypeView::NewlineInRune, at: p + 1 }
    } else if c == '\'' {
        Lexed::Failure { error: ErrorTypeView::EmptyRune, at: p }
    } else {
        rune_close(src, p, p + 2, c)
    }
}

/// The token that starts at `p`, where neither white space nor a comment
/// stands. At the end of the text this is the end-of-file token, or a
/// semicolon first where `semi` asks for one.
pub open spec fn token_at(src: Seq<u8>, p: int, semi: bool) -> Lexed {
    let c = char_at(src, p);
    if p >= src.len() {
        Lexed::Token {
            kind: if semi {
                TokenType::Semi
            } else {
                TokenType::Eof
            },
            start: p,
            end: p,
            text: None,
        }
    } else if c == '.' && digit(char_at(src, p + 1)) {
        number_at(src, p)
    } else if operator_at(src, p) is Some {
        let kind = operator_at(src, p)->0;
        Lexed::Token { kind: kind, start: p, end: p + operator_len(kind), text: None }
    } else if alpha(c) {
        word_at(src, p)
    } else if digit(c) {
        number_at(src, p)
    } else if c == '"' {
        string_at(src, p)
    } else if c == '`' {
        raw_string_at(src, p)
    } else if c == '\'' {
        rune_at(src, p)
    } else {
        Lexed::Failure { error: ErrorTypeView::UnrecognizedCharacter(c), at: p }
    }
}

/// Where the block comment whose body starts at `i` ends: the position just
/// behind the first `*/` at or after `i`, if there is one.
pub open spec fn comment_end(src: Seq<u8>, i: int) -> Option<int>
    decreases src.len() - i,
{
    if i < 0 || i >= src.len() {
        None
    } else if char_at(src, i) == '*' && char_at(src, i + 1) == '/' {
        Some(i + 2)
    } else {
        comment_end(src, i + 1)
    }
}

/// True if a newline stands somewhere from `from` up to `to`.
pub open spec fn has_newline(src: Seq<u8>, from: int, to: int) -> bool {
    exists|k: int| from <= k < to && #[trigger] char_at(src, k) == '\n'
}

/// What skipping white space and comments comes to.
pub enum Skipped {
    /// The next token starts at this position (or the text ends here).
    Ready(int),
    /// A semicolon is to be inserted: it is located at `at`, and scanning
    /// resumes at `resume`.
    Semi { at: int, resume: int },
    /// The block comment that starts at `at` is never closed.
    Unclosed { at: int },
}

/// Skips white space and comments from `i` on.
///
/// A line comment runs up to the next newline, which is not part of it. A
/// block comment runs up to the first `*/`. Where `semi` holds, the first
/// newline that is met asks for a semicolon and stays unread, and so does the
/// first block comment that holds a newline, which is read whole.
pub open spec fn skip(src: Seq<u8>, i: int, semi: bool) -> Skipped
    decreases src.len() - i,
{
    let c = char_at(src, i);
    if i < 0 || i >= src.len() {
        Skipped::Ready(i)
    } else if whitespace(c) {
        if c == '\n' && semi {
            Skipped::Semi { at: i, resume: i }
        } else {
            skip(src, i + 1, semi)
        }
    } else if c == '/' && char_at(src, i + 1) == '/' {
        proof {
            lemma_run_end_bounds(src, i + 2, CharClass::SameLine);
        }
        skip(src, run_end(src, i + 2, CharClass::SameLine), semi)
    } else if c == '/' && char_at(src, i + 1) == '*' {
        match comment_end(src, i + 2) {
            None => Skipped::Unclosed { at: i },
            Some(end) => {
                if semi && has_newline(src, i, end) {
                    Skipped::Semi { at: i, resume: end }
                } else {
                    proof {
                        lemma_comment_end_bounds(src, i + 2);
                    }
                    skip(src, end, semi)
                }
            },
        }
    } else {
        Skipped::Ready(i)
    }
}

/// The outcome of one scan that starts at `pos`, when `last` is the kind of
/// the token that was given out before.
pub open spec fn scan(src: Seq<u8>, pos: int, last: TokenType) -> Lexed {
    match skip(src, pos, needs_semicolon(last)) {
        Skipped::Semi { at, resume } => Lexed::Token {
            kind: TokenType::Semi,
            start: at,
            end: resume,
            text: None,
        },
        Skipped::Unclosed { at } => Lexed::Failure {
            error: ErrorTypeView::TrailingBlockComment,
            at: at,
        },
        Skipped::Ready(p) => token_at(src, p, needs_semicolon(last)),
    }
}

/// A run ends at or after its start and inside the text.
pub proof fn lemma_run_end_bounds(src: Seq<u8>, i: int, class: CharClass)
    ensures
        i <= run_end(src, i, class),
        i <= src.len() ==> run_end(src, i, class) <= src.len(),
    decreases src.len() - i,
{
    if 0 <= i < src.len() && in_class(class, char_at(src, i)) {
        lemma_run_end_bounds(src, i + 1, class);
    }
}

/// A block comment ends behind its body's start, inside the text.
pub proof fn lemma_comment_end_bounds(src: Seq<u8>, i: int)
    ensures
        comment_end(src, i) matches Some(end) ==> i + 2 <= end <= src.len(),
    decreases src.len() - i,
{
    if 0 <= i < src.len() && !(char_at(src, i) == '*' && char_at(src, i + 1) == '/') {
        lemma_comment_end_bounds(src, i + 1);
    }
}

} // verus!
