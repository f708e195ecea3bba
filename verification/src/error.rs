use vstd::prelude::*;
use crate::loc::{Loc, LocView};
use crate::token::TokenType;

verus! {

/// Why scanning or parsing stopped.
#[derive(Debug, PartialEq, Eq)]
pub enum ErrorType {
    /// A state that no input should produce; the text says which.
    Internal(String),
    // Lexical errors
    /// A character that starts no token.
    UnrecognizedCharacter(char),
    TrailingBlockComment,
    MalformedOctLiteral,
    MalformedHexLiteral,
    TrailingString,
    TrailingRune,
    /// The character that followed the backslash.
    InvalidEscape(char),
    NewlineInString,
    NewlineInRune,
    EmptyRune,
    // Syntax errors
    MissingPackageDeclaration,
    MissingPackageName,
    ExpectedDeclaration,
    ExpectedExpression,
    InvalidVarDecl,
    VarExprLengthMismatch,
    InvalidTypeDecl,
    ExpectedParamList,
    MissingLexeme,
    /// The kind that was found, then the kinds that would have been accepted.
    UnexpectedToken(TokenType, Vec<TokenType>),
    InvalidBreak,
    InvalidContinue,
}

/// An error kind as contracts see it.
pub enum ErrorTypeView {
    Internal(Seq<char>),
    UnrecognizedCharacter(char),
    TrailingBlockComment,
    MalformedOctLiteral,
    MalformedHexLiteral,
    TrailingString,
    TrailingRune,
    InvalidEscape(char),
    NewlineInString,
    NewlineInRune,
    EmptyRune,
    MissingPackageDeclaration,
    MissingPackageName,
    ExpectedDeclaration,
    ExpectedExpression,
    InvalidVarDecl,
    VarExprLengthMismatch,
    InvalidTypeDecl,
    ExpectedParamList,
    MissingLexeme,
    UnexpectedToken(TokenType, Seq<TokenType>),
    InvalidBreak,
    InvalidContinue,
}

impl View for ErrorType {
    type V = ErrorTypeView;

    open spec fn view(&self) -> ErrorTypeView {
        match *self {
            ErrorType::Internal(s) => ErrorTypeView::Internal(s@),
            ErrorType::UnrecognizedCharacter(c) => ErrorTypeView::UnrecognizedCharacter(c),
            ErrorType::TrailingBlockComment => ErrorTypeView::TrailingBlockComment,
            ErrorType::MalformedOctLiteral => ErrorTypeView::MalformedOctLiteral,
            ErrorType::MalformedHexLiteral => ErrorTypeView::MalformedHexLiteral,
            ErrorType::TrailingString => ErrorTypeView::TrailingString,
            ErrorType::TrailingRune => ErrorTypeView::TrailingRune,
            ErrorType::InvalidEscape(c) => ErrorTypeView::InvalidEscape(c),
            ErrorType::NewlineInString => ErrorTypeView::NewlineInString,
            ErrorType::NewlineInRune => ErrorTypeView::NewlineInRune,
            ErrorType::EmptyRune => ErrorTypeView::EmptyRune,
            ErrorType::MissingPackageDeclaration => ErrorTypeView::MissingPackageDeclaration,
            ErrorType::MissingPackageName => ErrorTypeView::MissingPackageName,
            ErrorType::ExpectedDeclaration => ErrorTypeView::ExpectedDeclaration,
            ErrorType::ExpectedExpression => ErrorTypeView::ExpectedExpression,
            ErrorType::InvalidVarDecl => ErrorTypeView::InvalidVarDecl,
            ErrorType::VarExprLengthMismatch => ErrorTypeView::VarExprLengthMismatch,
            ErrorType::InvalidTypeDecl => ErrorTypeView::InvalidTypeDecl,
            ErrorType::ExpectedParamList => ErrorTypeView::ExpectedParamList,
            ErrorType::MissingLexeme => ErrorTypeView::MissingLexeme,
            ErrorType::UnexpectedToken(actual, expected) => ErrorTypeView::UnexpectedToken(
                actual,
                expected@,
            ),
            ErrorType::InvalidBreak => ErrorTypeView::InvalidBreak,
            ErrorType::InvalidContinue => ErrorTypeView::InvalidContinue,
        }
    }
}

impl Clone for ErrorType {
    fn clone(&self) -> (r: ErrorType)
        ensures
            r@ == self@,
    {
        match self {
            ErrorType::Internal(s) => ErrorType::Internal(s.clone()),
            ErrorType::UnrecognizedCharacter(c) => ErrorType::UnrecognizedCharacter(*c),
            ErrorType::TrailingBlockComment => ErrorType::TrailingBlockComment,
            ErrorType::MalformedOctLiteral => ErrorType::MalformedOctLiteral,
            ErrorType::MalformedHexLiteral => ErrorType::MalformedHexLiteral,
            ErrorType::TrailingString => ErrorType::TrailingString,
            ErrorType::TrailingRune => ErrorType::TrailingRune,
            ErrorType::InvalidEscape(c) => ErrorType::InvalidEscape(*c),
            ErrorType::NewlineInString => ErrorType::NewlineInString,
            ErrorType::NewlineInRune => ErrorType::NewlineInRune,
            ErrorType::EmptyRune => ErrorType::EmptyRune,
            ErrorType::MissingPackageDeclaration => ErrorType::MissingPackageDeclaration,
            ErrorType::MissingPackageName => ErrorType::MissingPackageName,
            ErrorType::ExpectedDeclaration => ErrorType::ExpectedDeclaration,
            ErrorType::ExpectedExpression => ErrorType::ExpectedExpression,
            ErrorType::InvalidVarDecl => ErrorType::InvalidVarDecl,
            ErrorType::VarExprLengthMismatch => ErrorType::VarExprLengthMismatch,
            ErrorType::InvalidTypeDecl => ErrorType::InvalidTypeDecl,
            ErrorType::ExpectedParamList => ErrorType::ExpectedParamList,
            ErrorType::MissingLexeme => ErrorType::MissingLexeme,
            ErrorType::UnexpectedToken(actual, expected) => {
                let mut kinds: Vec<TokenType> = Vec::new();
                let mut i: usize = 0;
                while i < expected.len()
                    invariant
                        i <= expected.len(),
                        kinds@ == expected@.subrange(0, i as int),
                    decreases expected.len() - i,
                {
                    kinds.push(expected[i]);
                    i += 1;
                    assert(kinds@ =~= expected@.subrange(0, i as int));
                }
                assert(kinds@ =~= expected@);
                ErrorType::UnexpectedToken(*actual, kinds)
            },
            ErrorType::InvalidBreak => ErrorType::InvalidBreak,
            ErrorType::InvalidContinue => ErrorType::InvalidContinue,
        }
    }
}

impl ErrorType {
    /// The message of each kind, whatever it carries.
    pub open spec fn message(self) -> Seq<char> {
        match self {
            ErrorType::Internal(_) => "internal compiler error"@,
            ErrorType::UnrecognizedCharacter(_) => "unrecognized character"@,
            ErrorType::TrailingBlockComment => "unfinished block comment"@,
            ErrorType::MalformedOctLiteral => "malformed octal literal"@,
            ErrorType::MalformedHexLiteral => "malformed hexadecimal literal"@,
            ErrorType::TrailingString => "unfinished string literal"@,
            ErrorType::TrailingRune => "unfinished rune literal"@,
            ErrorType::InvalidEscape(_) => "invalid escape code"@,
            ErrorType::NewlineInString => "newline in interpreted string literal"@,
            ErrorType::NewlineInRune => "newline in rune literal"@,
            ErrorType::EmptyRune => "empty rune literal"@,
            ErrorType::MissingPackageDeclaration => "missing package declaration"@,
            ErrorType::MissingPackageName => "missing package name"@,
            ErrorType::ExpectedDeclaration => "expected a declaration"@,
            ErrorType::ExpectedExpression => "expected an expression"@,
            ErrorType::InvalidVarDecl => "invalid variable declaration"@,
            ErrorType::VarExprLengthMismatch => "variables and expressions differ in number"@,
            ErrorType::InvalidTypeDecl => "invalid type declaration"@,
            ErrorType::ExpectedParamList => "expected a parameter list"@,
            ErrorType::MissingLexeme => "token without a usable lexeme"@,
            ErrorType::UnexpectedToken(_, _) => "unexpected token"@,
            ErrorType::InvalidBreak => "break outside of a loop or a switch"@,
            ErrorType::InvalidContinue => "continue outside of a loop"@,
        }
    }

    pub fn to_str(&self) -> (r: &'static str)
        ensures
            r@ == self.message(),
    {
        match self {
            ErrorType::Internal(_) => "internal compiler error",
            ErrorType::UnrecognizedCharacter(_) => "unrecognized character",
            ErrorType::TrailingBlockComment => "unfinished block comment",
            ErrorType::MalformedOctLiteral => "malformed octal literal",
            ErrorType::MalformedHexLiteral => "malformed hexadecimal literal",
            ErrorType::TrailingString => "unfinished string literal",
            ErrorType::TrailingRune => "unfinished rune literal",
            ErrorType::InvalidEscape(_) => "invalid escape code",
            ErrorType::NewlineInString => "newline in interpreted string literal",
            ErrorType::NewlineInRune => "newline in rune literal",
            ErrorType::EmptyRune => "empty rune literal",
            ErrorType::MissingPackageDeclaration => "missing package declaration",
            ErrorType::MissingPackageName => "missing package name",
            ErrorType::ExpectedDeclaration => "expected a declaration",
            ErrorType::ExpectedExpression => "expected an expression",
            ErrorType::InvalidVarDecl => "invalid variable declaration",
            ErrorType::VarExprLengthMismatch => "variables and expressions differ in number",
            ErrorType::InvalidTypeDecl => "invalid type declaration",
            ErrorType::ExpectedParamList => "expected a parameter list",
            ErrorType::MissingLexeme => "token without a usable lexeme",
            ErrorType::UnexpectedToken(_, _) => "unexpected token",
            ErrorType::InvalidBreak => "break outside of a loop or a switch",
            ErrorType::InvalidContinue => "continue outside of a loop",
        }
    }
}

/// An error as contracts see it.
pub struct ErrorView {
    pub ty: ErrorTypeView,
    pub loc: LocView,
}

/// What went wrong, and where in the source.
#[derive(Debug)]
pub struct Error {
    pub ty: ErrorType,
    pub loc: Loc,
}

impl View for Error {
    type V = ErrorView;

    open spec fn view(&self) -> ErrorView {
        ErrorView { ty: self.ty@, loc: self.loc@ }
    }
}

impl Error {
    pub fn new(ty: ErrorType, loc: Loc) -> (r: Error)
        ensures
            r == (Error { ty: ty, loc: loc }),
    {
        Error { ty: ty, loc: loc }
    }
}

/// The failure of kind `ty` at `loc`, as a result of any type.
pub fn err<T>(ty: ErrorType, loc: Loc) -> (r: Result<T, Error>)
    ensures
        r == Err::<T, Error>(Error { ty: ty, loc: loc }),
{
    Err(Error::new(ty, loc))
}

} // verus!
