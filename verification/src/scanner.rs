//! The scanner: one token per call, with semicolons inserted at line ends.

use vstd::prelude::*;
use crate::error::{err, Error, ErrorType, ErrorTypeView, ErrorView};
use crate::lexical::{
    alnum, alpha, char_at, col_at, comment_end, digit, escape, has_newline, hex, hex_prefix_at,
    in_class, line_at, loc_at, needs_semicolon, number_at, octal, operator_len, operator_of,
    raw_string_at, raw_string_from, rune_at, run_end, scan, skip, string_at, string_from, text,
    whitespace, word_at, word_kind, CharClass, Lexed, Skipped,
};
use crate::lexical_laws::{lemma_scan_bounds, lemma_scan_progress, remaining, scan_all};
use crate::loc::Loc;
use crate::strings::{push_char, str_eq};
use crate::token::{Token, TokenType, TokenView};

verus! {

/// A scanner as contracts see it: the text it reads, how far it has read,
/// and the kind of the token it gave out last.
pub struct ScannerView {
    pub filename: Seq<char>,
    pub src: Seq<u8>,
    pub pos: int,
    pub last_tok: TokenType,
}

/// Reads a source text token by token.
#[derive(Debug)]
pub struct Scanner {
    filename: String,
    src: Vec<u8>,
    pos: usize,
    line: usize,
    col: usize,
    last_tok: TokenType,
}

impl View for Scanner {
    type V = ScannerView;

    closed spec fn view(&self) -> ScannerView {
        ScannerView {
            filename: self.filename@,
            src: self.src@,
            pos: self.pos as int,
            last_tok: self.last_tok,
        }
    }
}

/// True if `r` is what `lexed` describes, in the text `src` named `file`.
pub open spec fn agrees(r: Result<Token, Error>, file: Seq<char>, src: Seq<u8>, lexed: Lexed) -> bool {
    match lexed {
        Lexed::Token { kind, start, end, text } => r is Ok && r->Ok_0@ == (TokenView {
            ty: kind,
            loc: loc_at(file, src, start),
            lexeme: text,
        }),
        Lexed::Failure { error, at } => r is Err && r->Err_0@ == (ErrorView {
            ty: error,
            loc: loc_at(file, src, at),
        }),
    }
}

/// No position lies on a line or in a column beyond its own number.
pub proof fn lemma_line_col_bounds(src: Seq<u8>, i: int)
    requires
        0 <= i,
    ensures
        1 <= line_at(src, i) <= i + 1,
        1 <= col_at(src, i) <= i + 1,
    decreases i,
{
    if i > 0 {
        lemma_line_col_bounds(src, i - 1);
    }
}

fn is_whitespace(c: char) -> (r: bool)
    ensures
        r == whitespace(c),
{
    c == ' ' || c == '\t' || c == '\n'
}

fn is_alpha(c: char) -> (r: bool)
    ensures
        r == alpha(c),
{
    c == '_' || (c >= 'a' && c <= 'z') || (c >= 'A' && c <= 'Z')
}

fn is_digit(c: char) -> (r: bool)
    ensures
        r == digit(c),
{
    c >= '0' && c <= '9'
}

fn is_octal(c: char) -> (r: bool)
    ensures
        r == octal(c),
{
    c >= '0' && c <= '7'
}

fn is_hex(c: char) -> (r: bool)
    ensures
        r == hex(c),
{
    is_digit(c) || (c >= 'a' && c <= 'f') || (c >= 'A' && c <= 'F')
}

fn is_alnum(c: char) -> (r: bool)
    ensures
        r == alnum(c),
{
    is_alpha(c) || is_digit(c)
}

/// The character that a backslash and `c` stand for.
fn escape_code(c: char, quote: char) -> (r: Option<char>)
    ensures
        r == escape(c, quote),
{
    if c == 'a' {
        Some('\x07')
    } else if c == 'b' {
        Some('\x08')
    } else if c == 'f' {
        Some('\x0c')
    } else if c == 'n' {
        Some('\n')
    } else if c == 'r' {
        Some('\r')
    } else if c == 't' {
        Some('\t')
    } else if c == 'v' {
        Some('\x0b')
    } else if c == '\\' {
        Some('\\')
    } else if c == quote {
        Some(quote)
    } else {
        None
    }
}

/// The operator or punctuation mark that the characters `a`, `b`, `c` begin
/// with, and how many of them it takes.
fn operator(a: char, b: char, c: char) -> (r: Option<(TokenType, usize)>)
    ensures
        match operator_of(a, b, c) {
            Some(kind) => r == Some((kind, operator_len(kind) as usize)),
            None => r is None,
        },
{
    match a {
        '<' => {
            if b == '<' {
                if c == '=' {
                    Some((TokenType::LeftShiftEq, 3))
                } else {
                    Some((TokenType::LeftShift, 2))
                }
            } else if b == '=' {
                Some((TokenType::Le, 2))
            } else {
                Some((TokenType::Lt, 1))
            }
        },
        '>' => {
            if b == '>' {
                if c == '=' {
                    Some((TokenType::RightShiftEq, 3))
                } else {
                    Some((TokenType::RightShift, 2))
                }
            } else if b == '=' {
                Some((TokenType::Ge, 2))
            } else {
                Some((TokenType::Gt, 1))
            }
        },
        ':' => {
            if b == '=' {
                Some((TokenType::ColonEq, 2))
            } else {
                Some((TokenType::Colon, 1))
            }
        },
        '+' => {
            if b == '=' {
                Some((TokenType::PlusEq, 2))
            } else if b == '+' {
                Some((TokenType::Incr, 2))
            } else {
                Some((TokenType::Plus, 1))
            }
        },
        '-' => {
            if b == '=' {
                Some((TokenType::MinusEq, 2))
            } else if b == '-' {
                Some((TokenType::Decr, 2))
            } else {
                Some((TokenType::Minus, 1))
            }
        },
        '*' => {
            if b == '=' {
                Some((TokenType::StarEq, 2))
            } else {
                Some((TokenType::Star, 1))
            }
        },
        '/' => {
            if b == '=' {
                Some((TokenType::SlashEq, 2))
            } else {
                Some((TokenType::Slash, 1))
            }
        },
        '%' => {
            if b == '=' {
                Some((TokenType::PercentEq, 2))
            } else {
                Some((TokenType::Percent, 1))
            }
        },
        '|' => {
            if b == '=' {
                Some((TokenType::BitorEq, 2))
            } else if b == '|' {
                Some((TokenType::Or, 2))
            } else {
                Some((TokenType::Bitor, 1))
            }
        },
        '&' => {
            if b == '=' {
                Some((TokenType::BitandEq, 2))
            } else if b == '^' {
                Some((TokenType::BitClear, 2))
            } else if b == '&' {
                Some((TokenType::And, 2))
            } else {
                Some((TokenType::Bitand, 1))
            }
        },
        '=' => {
            if b == '=' {
                Some((TokenType::Eq, 2))
            } else {
                Some((TokenType::Assign, 1))
            }
        },
        '!' => {
            if b == '=' {
                Some((TokenType::Ne, 2))
            } else {
                Some((TokenType::Not, 1))
            }
        },
        '^' => Some((TokenType::Bitnot, 1)),
        '(' => Some((TokenType::LParen, 1)),
        ')' => Some((TokenType::RParen, 1)),
        '[' => Some((TokenType::LBracket, 1)),
        ']' => Some((TokenType::RBracket, 1)),
        '{' => Some((TokenType::LBrace, 1)),
        '}' => Some((TokenType::RBrace, 1)),
        ',' => Some((TokenType::Comma, 1)),
        ';' => Some((TokenType::Semi, 1)),
        '.' => Some((TokenType::Dot, 1)),
        _ => None,
    }
}

impl Scanner {
    /// What every scanner holds: its position lies inside the text, and its
    /// line and column are those of its position.
    pub closed spec fn wf(&self) -> bool {
        &&& self.pos <= self.src.len() < usize::MAX
        &&& self.line == line_at(self.src@, self.pos as int)
        &&& self.col == col_at(self.src@, self.pos as int)
    }

    /// A scanner stands inside its text, at the end at most, and its text
    /// is short enough for lines and columns to be counted.
    pub proof fn lemma_wf_bounds(&self)
        requires
            self.wf(),
        ensures
            0 <= self@.pos <= self@.src.len() < usize::MAX,
    {
    }

    /// True if this scanner reads the same text as `before`, has given out
    /// the same token last, and stands at `pos`.
    spec fn moved(&self, before: &Scanner, pos: int) -> bool {
        &&& self.wf()
        &&& self.filename == before.filename
        &&& self.src == before.src
        &&& self.last_tok == before.last_tok
        &&& self.pos == pos
    }

    /// True if the call that took the scanner from `before` to `self` and
    /// returned `r` scanned what `lexed` describes.
    spec fn scanned(&self, before: &Scanner, r: Result<Token, Error>, lexed: Lexed) -> bool {
        &&& self.wf()
        &&& self.filename == before.filename
        &&& self.src == before.src
        &&& self.last_tok == before.last_tok
        &&& agrees(r, self.filename@, self.src@, lexed)
        &&& lexed matches Lexed::Token { end, .. } ==> self.pos == end
    }

    /// A scanner at the start of `src`. The name only serves to locate
    /// tokens and errors.
    pub fn new(filename: String, src: Vec<u8>) -> (r: Scanner)
        requires
            src.len() < usize::MAX,
        ensures
            r.wf(),
            r@ == (ScannerView {
                filename: filename@,
                src: src@,
                pos: 0,
                last_tok: TokenType::Start,
            }),
    {
        Scanner { filename: filename, src: src, pos: 0, line: 1, col: 1, last_tok: TokenType::Start }
    }

    /// The kind of the token that was given out last.
    pub fn last_tok(&self) -> (r: TokenType)
        ensures
            r == self@.last_tok,
    {
        self.last_tok
    }

    /// The character at `offset`, and NUL past the end.
    fn peek_at(&self, offset: usize) -> (c: char)
        ensures
            c == char_at(self.src@, offset as int),
    {
        if offset >= self.src.len() {
            '\0'
        } else {
            self.src[offset] as char
        }
    }

    /// The character at the current position.
    fn peek(&self) -> (c: char)
        ensures
            c == char_at(self.src@, self.pos as int),
    {
        self.peek_at(self.pos)
    }

    /// The character behind the current one.
    fn peek_next(&self) -> (c: char)
        requires
            self.wf(),
        ensures
            c == char_at(self.src@, self.pos + 1),
    {
        self.peek_at(self.pos + 1)
    }

    /// The second character behind the current one.
    fn peek_third(&self) -> (c: char)
        requires
            self.wf(),
        ensures
            c == char_at(self.src@, self.pos + 2),
    {
        if self.src.len() - self.pos <= 2 {
            '\0'
        } else {
            self.peek_at(self.pos + 2)
        }
    }

    /// True if the whole text has been read.
    fn eof(&self) -> (r: bool)
        ensures
            r == (self.pos >= self.src.len()),
    {
        self.pos >= self.src.len()
    }

    /// The location of the current position.
    fn loc(&self) -> (r: Loc)
        requires
            self.wf(),
        ensures
            r@ == loc_at(self.filename@, self.src@, self.pos as int),
    {
        Loc::new(self.filename.as_str(), self.line, self.col)
    }

    /// Moves one character forward, to the next line where that character
    /// is a newline.
    fn advance(&mut self)
        requires
            old(self).wf(),
            old(self).pos < old(self).src.len(),
        ensures
            final(self).moved(old(self), old(self).pos + 1),
    {
        proof {
            lemma_line_col_bounds(self.src@, self.pos as int);
        }
        if self.peek() == '\n' {
            self.line += 1;
            self.col = 1;
        } else {
            self.col += 1;
        }
        self.pos += 1;
    }

    /// Moves `n` characters forward.
    fn advance_by(&mut self, n: usize)
        requires
            old(self).wf(),
            old(self).pos + n <= old(self).src.len(),
        ensures
            final(self).moved(old(self), old(self).pos + n),
    {
        let mut i: usize = 0;
        while i < n
            invariant
                i <= n,
                old(self).pos + n <= old(self).src.len(),
                self.moved(old(self), old(self).pos + i),
            decreases n - i,
        {
            self.advance();
            i += 1;
        }
    }

    /// If the characters `a` and `b` come next, reads them and returns true.
    fn looking_at(&mut self, a: char, b: char) -> (r: bool)
        requires
            old(self).wf(),
            a != '\0',
            b != '\0',
        ensures
            r == (char_at(old(self).src@, old(self).pos as int) == a && char_at(
                old(self).src@,
                old(self).pos + 1,
            ) == b),
            final(self).moved(
                old(self),
                if r {
                    old(self).pos + 2
                } else {
                    old(self).pos as int
                },
            ),
    {
        if self.peek() == a && self.peek_next() == b {
            self.advance();
            self.advance();
            true
        } else {
            false
        }
    }

    /// A token without text, located at the current position.
    fn tok_nolex(&self, ty: TokenType) -> (r: Token)
        requires
            self.wf(),
        ensures
            r@ == (TokenView {
                ty: ty,
                loc: loc_at(self.filename@, self.src@, self.pos as int),
                lexeme: None,
            }),
    {
        Token::new(ty, self.loc(), None)
    }

    /// True if a line end after the last token terminates a statement:
    /// that is, if the token that was given out last can end one.
    pub fn needs_semicolon(&self) -> (r: bool)
        ensures
            r == needs_semicolon(self@.last_tok),
    {
        match self.last_tok {
            TokenType::Id
            | TokenType::Blank
            | TokenType::Int
            | TokenType::IntOct
            | TokenType::IntHex
            | TokenType::Float
            | TokenType::Rune
            | TokenType::String
            | TokenType::Break
            | TokenType::Continue
            | TokenType::Return
            | TokenType::Incr
            | TokenType::Decr
            | TokenType::RParen
            | TokenType::RBracket
            | TokenType::RBrace
            | TokenType::Eof => true,
            _ => false,
        }
    }

    /// Reads the longest run of characters of `class` and appends them to
    /// `out`.
    fn take_run(&mut self, class: CharClass, out: &mut String)
        requires
            old(self).wf(),
        ensures
            final(self).moved(old(self), run_end(old(self).src@, old(self).pos as int, class)),
            final(out)@ == old(out)@ + text(
                old(self).src@,
                old(self).pos as int,
                final(self).pos as int,
            ),
    {
        let ghost start = self.pos as int;
        assert(text(self.src@, start, start) =~= Seq::<char>::empty());
        while !self.eof() && is_in_class(class, self.peek())
            invariant
                self.moved(old(self), self.pos as int),
                start == old(self).pos,
                start <= self.pos,
                run_end(self.src@, self.pos as int, class) == run_end(self.src@, start, class),
                out@ == old(out)@ + text(self.src@, start, self.pos as int),
            decreases self.src.len() - self.pos,
        {
            let c = self.peek();
            push_char(out, c);
            self.advance();
            assert(text(self.src@, start, self.pos as int) =~= text(
                self.src@,
                start,
                self.pos - 1,
            ).push(c));
        }
    }

    /// Skips white space. Stops before a newline that terminates a
    /// statement, and returns the semicolon that stands for it.
    fn skip_whitespace(&mut self) -> (r: Option<Token>)
        requires
            old(self).wf(),
        ensures
            final(self).moved(old(self), final(self).pos as int),
            old(self).pos <= final(self).pos,
            skip(final(self).src@, final(self).pos as int, needs_semicolon(final(self).last_tok))
                == skip(
                old(self).src@,
                old(self).pos as int,
                needs_semicolon(old(self).last_tok),
            ),
            match r {
                Some(tok) => {
                    &&& needs_semicolon(final(self).last_tok)
                    &&& char_at(final(self).src@, final(self).pos as int) == '\n'
                    &&& tok@ == (TokenView {
                        ty: TokenType::Semi,
                        loc: loc_at(final(self).filename@, final(self).src@, final(self).pos as int),
                        lexeme: None,
                    })
                },
                None => {
                    &&& !whitespace(char_at(final(self).src@, final(self).pos as int))
                    &&& whitespace(char_at(old(self).src@, old(self).pos as int))
                        ==> old(self).pos < final(self).pos
                },
            },
    {
        while is_whitespace(self.peek())
            invariant
                self.moved(old(self), self.pos as int),
                old(self).pos <= self.pos,
                skip(self.src@, self.pos as int, needs_semicolon(self.last_tok)) == skip(
                    old(self).src@,
                    old(self).pos as int,
                    needs_semicolon(old(self).last_tok),
                ),
                whitespace(char_at(old(self).src@, old(self).pos as int)) || old(self).pos
                    == self.pos,
            decreases self.src.len() - self.pos,
        {
            if self.peek() == '\n' && self.needs_semicolon() {
                return Some(self.tok_nolex(TokenType::Semi));
            }
            self.advance();
        }
        None
    }

    /// Skips the rest of a line comment, up to the newline that ends it.
    fn skip_line_comment(&mut self)
        requires
            old(self).wf(),
        ensures
            final(self).moved(
                old(self),
                run_end(old(self).src@, old(self).pos as int, CharClass::SameLine),
            ),
    {
        while !self.eof() && self.peek() != '\n'
            invariant
                self.moved(old(self), self.pos as int),
                run_end(self.src@, self.pos as int, CharClass::SameLine) == run_end(
                    old(self).src@,
                    old(self).pos as int,
                    CharClass::SameLine,
                ),
            decreases self.src.len() - self.pos,
        {
            self.advance();
        }
    }

    /// Skips the body of a block comment and the mark that closes it, and
    /// returns whether the body holds a newline. `start_loc` is where the
    /// comment opened.
    fn skip_block_comment(&mut self, start_loc: &Loc) -> (r: Result<bool, Error>)
        requires
            old(self).wf(),
        ensures
            final(self).moved(old(self), final(self).pos as int),
            match comment_end(old(self).src@, old(self).pos as int) {
                Some(end) => {
                    &&& r is Ok
                    &&& r->Ok_0 == has_newline(old(self).src@, old(self).pos as int, end)
                    &&& final(self).pos == end
                },
                None => {
                    &&& r is Err
                    &&& r->Err_0@ == (ErrorView {
                        ty: ErrorTypeView::TrailingBlockComment,
                        loc: start_loc@,
                    })
                },
            },
    {
        let mut seen_newline = false;
        loop
            invariant
                self.moved(old(self), self.pos as int),
                old(self).pos <= self.pos,
                comment_end(self.src@, self.pos as int) == comment_end(
                    old(self).src@,
                    old(self).pos as int,
                ),
                seen_newline == has_newline(self.src@, old(self).pos as int, self.pos as int),
            decreases self.src.len() - self.pos,
        {
            if self.eof() {
                return err(ErrorType::TrailingBlockComment, start_loc.clone());
            }
            let ghost before = self.pos as int;
            if self.looking_at('*', '/') {
                assert(has_newline(self.src@, old(self).pos as int, self.pos as int) ==> has_newline(
                    self.src@,
                    old(self).pos as int,
                    before,
                ));
                return Ok(seen_newline);
            }
            seen_newline = seen_newline || self.peek() == '\n';
            self.advance();
        }
    }

    /// Skips white space and comments. Returns the semicolon to insert, if
    /// a line end among them terminates a statement.
    fn skip_whitespace_and_comments(&mut self) -> (r: Result<Option<Token>, Error>)
        requires
            old(self).wf(),
        ensures
            final(self).moved(old(self), final(self).pos as int),
            match skip(old(self).src@, old(self).pos as int, needs_semicolon(old(self).last_tok)) {
                Skipped::Ready(p) => r is Ok && r->Ok_0 is None && final(self).pos == p,
                Skipped::Semi { at, resume } => {
                    &&& r is Ok
                    &&& r->Ok_0 is Some
                    &&& r->Ok_0->0@ == (TokenView {
                        ty: TokenType::Semi,
                        loc: loc_at(old(self).filename@, old(self).src@, at),
                        lexeme: None,
                    })
                    &&& final(self).pos == resume
                },
                Skipped::Unclosed { at } => {
                    &&& r is Err
                    &&& r->Err_0@ == (ErrorView {
                        ty: ErrorTypeView::TrailingBlockComment,
                        loc: loc_at(old(self).filename@, old(self).src@, at),
                    })
                },
            },
    {
        loop
            invariant
                self.moved(old(self), self.pos as int),
                skip(self.src@, self.pos as int, needs_semicolon(self.last_tok)) == skip(
                    old(self).src@,
                    old(self).pos as int,
                    needs_semicolon(old(self).last_tok),
                ),
            decreases self.src.len() - self.pos,
        {
            if is_whitespace(self.peek()) {
                match self.skip_whitespace() {
                    None => {
                        continue ;
                    },
                    Some(tok) => {
                        return Ok(Some(tok));
                    },
                }
            }
            let line = self.line;
            let col = self.col;
            if self.looking_at('/', '/') {
                proof {
                    crate::lexical::lemma_run_end_bounds(
                        self.src@,
                        self.pos as int,
                        CharClass::SameLine,
                    );
                }
                self.skip_line_comment();
                continue ;
            }
            if self.looking_at('/', '*') {
                let start_loc = Loc::new(self.filename.as_str(), line, col);
                proof {
                    crate::lexical::lemma_comment_end_bounds(self.src@, self.pos as int);
                }
                let seen_newline = match self.skip_block_comment(&start_loc) {
                    Ok(b) => b,
                    Err(e) => {
                        return Err(e);
                    },
                };
                if seen_newline && self.needs_semicolon() {
                    return Ok(Some(Token::new(TokenType::Semi, start_loc, None)));
                } else {
                    continue ;
                }
            }
            return Ok(None);
        }
    }

    /// Reads a word: a name, a reserved word or the blank identifier.
    fn id_or_keyword(&mut self) -> (r: Token)
        requires
            old(self).wf(),
        ensures
            final(self).scanned(old(self), Ok(r), word_at(old(self).src@, old(self).pos as int)),
    {
        let start_loc = self.loc();
        let mut name = String::new();
        self.take_run(CharClass::Alnum, &mut name);
        let ty = keyword(name.as_str());
        let lexeme = if ty == TokenType::Id {
            Some(name)
        } else {
            None
        };
        Token::new(ty, start_loc, lexeme)
    }

    /// Reads a numeric literal.
    fn number(&mut self) -> (r: Result<Token, Error>)
        requires
            old(self).wf(),
        ensures
            final(self).scanned(old(self), r, number_at(old(self).src@, old(self).pos as int)),
    {
        let start_loc = self.loc();
        if self.looking_at('0', 'x') || self.looking_at('0', 'X') {
            self.hex(start_loc)
        } else {
            self.decimal_or_octal()
        }
    }

    /// Reads the digits of a hexadecimal literal whose prefix has been read;
    /// `start_loc` is where the prefix stands.
    fn hex(&mut self, start_loc: Loc) -> (r: Result<Token, Error>)
        requires
            old(self).wf(),
        ensures
            final(self).moved(old(self), final(self).pos as int),
            ({
                let end = run_end(old(self).src@, old(self).pos as int, CharClass::Hex);
                if end == old(self).pos {
                    &&& r is Err
                    &&& r->Err_0@ == (ErrorView {
                        ty: ErrorTypeView::MalformedHexLiteral,
                        loc: start_loc@,
                    })
                } else {
                    &&& r is Ok
                    &&& r->Ok_0@ == (TokenView {
                        ty: TokenType::IntHex,
                        loc: start_loc@,
                        lexeme: Some(text(old(self).src@, old(self).pos as int, end)),
                    })
                    &&& final(self).pos == end
                }
            }),
    {
        let mut digits = String::new();
        let before = self.pos;
        self.take_run(CharClass::Hex, &mut digits);
        if self.pos == before {
            err(ErrorType::MalformedHexLiteral, start_loc)
        } else {
            Ok(Token::new(TokenType::IntHex, start_loc, Some(digits)))
        }
    }

    /// Reads a literal that starts with a decimal digit or a period: a
    /// decimal or octal integer, or a float.
    fn decimal_or_octal(&mut self) -> (r: Result<Token, Error>)
        requires
            old(self).wf(),
            !hex_prefix_at(old(self).src@, old(self).pos as int),
        ensures
            final(self).scanned(old(self), r, number_at(old(self).src@, old(self).pos as int)),
    {
        let start_loc = self.loc();
        let starts_with_zero = self.peek() == '0';
        let mut digits = String::new();
        let ghost start = self.pos as int;
        let mut all_octal = true;
        assert(text(self.src@, start, start) =~= Seq::<char>::empty());
        while is_digit(self.peek())
            invariant
                self.moved(old(self), self.pos as int),
                start == old(self).pos,
                start <= self.pos,
                run_end(self.src@, self.pos as int, CharClass::Digit) == run_end(
                    self.src@,
                    start,
                    CharClass::Digit,
                ),
                digits@ == text(self.src@, start, self.pos as int),
                all_octal == (forall|k: int|
                    start <= k < self.pos ==> octal(#[trigger] char_at(self.src@, k))),
            decreases self.src.len() - self.pos,
        {
            let c = self.peek();
            all_octal = all_octal && is_octal(c);
            push_char(&mut digits, c);
            self.advance();
            assert(text(self.src@, start, self.pos as int) =~= text(
                self.src@,
                start,
                self.pos - 1,
            ).push(c));
        }
        if self.peek() == '.' {
            push_char(&mut digits, '.');
            self.advance();
            assert(digits@ =~= text(self.src@, start, self.pos as int));
            let ghost mid = self.pos as int;
            let r = self.float_literal(start_loc, digits);
            proof {
                crate::lexical::lemma_run_end_bounds(self.src@, mid, CharClass::Digit);
                assert(text(self.src@, start, mid) + text(self.src@, mid, self.pos as int) =~= text(
                    self.src@,
                    start,
                    self.pos as int,
                ));
            }
            r
        } else if starts_with_zero {
            if all_octal {
                Ok(Token::new(TokenType::IntOct, start_loc, Some(digits)))
            } else {
                err(ErrorType::MalformedOctLiteral, start_loc)
            }
        } else {
            Ok(Token::new(TokenType::Int, start_loc, Some(digits)))
        }
    }

    /// Reads the digits behind the period of a float; `digits` holds the
    /// literal up to and with the period, and `loc` is where it starts.
    fn float_literal(&mut self, loc: Loc, digits: String) -> (r: Result<Token, Error>)
        requires
            old(self).wf(),
        ensures
            final(self).moved(
                old(self),
                run_end(old(self).src@, old(self).pos as int, CharClass::Digit),
            ),
            r is Ok,
            r->Ok_0@ == (TokenView {
                ty: TokenType::Float,
                loc: loc@,
                lexeme: Some(
                    digits@ + text(old(self).src@, old(self).pos as int, final(self).pos as int),
                ),
            }),
    {
        let mut digits = digits;
        self.take_run(CharClass::Digit, &mut digits);
        Ok(Token::new(TokenType::Float, loc, Some(digits)))
    }

    /// Reads an interpreted string, from its opening quote on.
    fn interpreted_string(&mut self) -> (r: Result<Token, Error>)
        requires
            old(self).wf(),
            char_at(old(self).src@, old(self).pos as int) == '"',
        ensures
            final(self).scanned(old(self), r, string_at(old(self).src@, old(self).pos as int)),
    {
        let start_loc = self.loc();
        let mut content = String::new();
        let ghost open = self.pos as int;
        self.advance();
        while self.peek() != '"'
            invariant
                self.moved(old(self), self.pos as int),
                open == old(self).pos,
                open < self.pos,
                start_loc@ == loc_at(self.filename@, self.src@, open),
                string_from(self.src@, open, self.pos as int, content@) == string_at(
                    self.src@,
                    open,
                ),
            decreases self.src.len() - self.pos,
        {
            if self.eof() {
                return err(ErrorType::TrailingString, start_loc);
            }
            if self.peek() == '\\' {
                self.advance();
                let c = self.peek();
                match escape_code(c, '"') {
                    Some(code) => {
                        push_char(&mut content, code);
                        self.advance();
                    },
                    None => {
                        return err(ErrorType::InvalidEscape(c), self.loc());
                    },
                }
            } else if self.peek() == '\n' {
                return err(ErrorType::NewlineInString, self.loc());
            } else {
                push_char(&mut content, self.peek());
                self.advance();
            }
        }
        self.advance();
        Ok(Token::new(TokenType::String, start_loc, Some(content)))
    }

    /// Reads a raw string, from its opening back quote on.
    fn raw_string(&mut self) -> (r: Result<Token, Error>)
        requires
            old(self).wf(),
            char_at(old(self).src@, old(self).pos as int) == '`',
        ensures
            final(self).scanned(old(self), r, raw_string_at(old(self).src@, old(self).pos as int)),
    {
        let start_loc = self.loc();
        let mut content = String::new();
        let ghost open = self.pos as int;
        self.advance();
        while self.peek() != '`'
            invariant
                self.moved(old(self), self.pos as int),
                open == old(self).pos,
                open < self.pos,
                start_loc@ == loc_at(self.filename@, self.src@, open),
                raw_string_from(self.src@, open, self.pos as int, content@) == raw_string_at(
                    self.src@,
                    open,
                ),
            decreases self.src.len() - self.pos,
        {
            if self.eof() {
                return err(ErrorType::TrailingString, start_loc);
            }
            if self.looking_at('\\', 'r') {
                continue ;
            } else {
                push_char(&mut content, self.peek());
                self.advance();
            }
        }
        self.advance();
        Ok(Token::new(TokenType::String, start_loc, Some(content)))
    }

    /// Reads a rune, from its opening quote on.
    fn rune(&mut self) -> (r: Result<Token, Error>)
        requires
            old(self).wf(),
            char_at(old(self).src@, old(self).pos as int) == '\'',
        ensures
            final(self).scanned(old(self), r, rune_at(old(self).src@, old(self).pos as int)),
    {
        let start_loc = self.loc();
        let mut content = String::new();
        self.advance();
        if self.eof() {
            return err(ErrorType::TrailingRune, start_loc);
        }
        if self.peek() == '\\' {
            self.advance();
            let c = self.peek();
            match escape_code(c, '\'') {
                Some(code) => {
                    push_char(&mut content, code);
                    self.advance();
                },
                None => {
                    return err(ErrorType::InvalidEscape(c), self.loc());
                },
            }
        } else if self.peek() == '\n' {
            return err(ErrorType::NewlineInRune, self.loc());
        } else if self.peek() == '\'' {
            return err(ErrorType::EmptyRune, start_loc);
        } else {
            push_char(&mut content, self.peek());
            self.advance();
        }
        if self.peek() == '\'' {
            self.advance();
            assert(content@ =~= seq![content@[0]]);
            Ok(Token::new(TokenType::Rune, start_loc, Some(content)))
        } else {
            err(ErrorType::TrailingRune, start_loc)
        }
    }

    /// Scans the next token.
    ///
    /// White space and comments are skipped first. A line end among them
    /// that follows a token which can end a statement gives a semicolon, and
    /// so does the end of the text. The last token is the end-of-file token.
    /// After an error the scanner is not to be used any more.
    pub fn next(&mut self) -> (r: Result<Token, Error>)
        requires
            old(self).wf(),
        ensures
            final(self).wf(),
            final(self)@.filename == old(self)@.filename,
            final(self)@.src == old(self)@.src,
            0 <= final(self)@.pos <= final(self)@.src.len(),
            agrees(
                r,
                old(self)@.filename,
                old(self)@.src,
                scan(old(self)@.src, old(self)@.pos, old(self)@.last_tok),
            ),
            match scan(old(self)@.src, old(self)@.pos, old(self)@.last_tok) {
                Lexed::Token { kind, start, end, text } => {
                    &&& final(self)@.pos == end
                    &&& final(self)@.last_tok == kind
                },
                Lexed::Failure { error, at } => final(self)@.last_tok == old(self)@.last_tok,
            },
    {
        match self.skip_whitespace_and_comments() {
            Ok(Some(tok)) => {
                self.last_tok = tok.ty;
                return Ok(tok);
            },
            Ok(None) => {},
            Err(e) => {
                return Err(e);
            },
        }
        let c = self.peek();
        let r = if self.eof() {
            if self.needs_semicolon() {
                Ok(self.tok_nolex(TokenType::Semi))
            } else {
                Ok(self.tok_nolex(TokenType::Eof))
            }
        } else if c == '.' && is_digit(self.peek_next()) {
            self.number()
        } else if let Some((kind, len)) = operator(c, self.peek_next(), self.peek_third()) {
            let tok = self.tok_nolex(kind);
            self.advance_by(len);
            Ok(tok)
        } else if is_alpha(c) {
            Ok(self.id_or_keyword())
        } else if is_digit(c) {
            self.number()
        } else if c == '"' {
            self.interpreted_string()
        } else if c == '`' {
            self.raw_string()
        } else if c == '\'' {
            self.rune()
        } else {
            err(ErrorType::UnrecognizedCharacter(c), self.loc())
        };
        match r {
            Ok(tok) => {
                self.last_tok = tok.ty;
                Ok(tok)
            },
            Err(e) => Err(e),
        }
    }

    /// Scans the rest of the text: every token up to and with the
    /// end-of-file token, or the first error.
    pub fn all_tokens(&mut self) -> (r: Result<Vec<Token>, Error>)
        requires
            old(self).wf(),
        ensures
            final(self).wf(),
            final(self)@.filename == old(self)@.filename,
            final(self)@.src == old(self)@.src,
            r matches Ok(tokens) ==> {
                &&& tokens@.len() >= 1
                &&& tokens@.last().ty == TokenType::Eof
                &&& final(self)@.pos == final(self)@.src.len()
                &&& final(self)@.last_tok == TokenType::Eof
            },
            ({
                let outcomes = scan_all(old(self)@.src, old(self)@.pos, old(self)@.last_tok);
                match outcomes.last() {
                    Lexed::Token { .. } => {
                        &&& r is Ok
                        &&& r->Ok_0@.len() == outcomes.len()
                        &&& forall|i: int|
                            0 <= i < outcomes.len() ==> agrees(
                                Ok(#[trigger] r->Ok_0@[i]),
                                old(self)@.filename,
                                old(self)@.src,
                                outcomes[i],
                            )
                    },
                    Lexed::Failure { .. } => r is Err && agrees(
                        Err(r->Err_0),
                        old(self)@.filename,
                        old(self)@.src,
                        outcomes.last(),
                    ),
                }
            }),
    {
        let mut toks: Vec<Token> = Vec::new();
        let ghost done: Seq<Lexed> = Seq::empty();
        loop
            invariant
                self.wf(),
                self.filename@ == old(self).filename@,
                self.src@ == old(self).src@,
                toks@.len() == done.len(),
                forall|i: int|
                    0 <= i < done.len() ==> agrees(
                        Ok(#[trigger] toks@[i]),
                        self.filename@,
                        self.src@,
                        done[i],
                    ),
                scan_all(old(self).src@, old(self).pos as int, old(self).last_tok) == done
                    + scan_all(self.src@, self.pos as int, self.last_tok),
            decreases remaining(self.src@, self.pos as int, self.last_tok),
        {
            let ghost first = scan(self.src@, self.pos as int, self.last_tok);
            let ghost rest = scan_all(self.src@, self.pos as int, self.last_tok);
            proof {
                lemma_scan_progress(self.src@, self.pos as int, self.last_tok);
                lemma_scan_bounds(self.src@, self.pos as int, self.last_tok);
            }
            match self.next() {
                Ok(tok) => {
                    let at_end = tok.is_eof();
                    toks.push(tok);
                    proof {
                        done = done.push(first);
                        if at_end {
                            assert(rest =~= seq![first]);
                            assert(done =~= scan_all(
                                old(self).src@,
                                old(self).pos as int,
                                old(self).last_tok,
                            ));
                        } else {
                            assert(done + scan_all(self.src@, self.pos as int, self.last_tok)
                                =~= done.drop_last() + rest);
                        }
                    }
                    if at_end {
                        return Ok(toks);
                    }
                },
                Err(e) => {
                    proof {
                        assert(rest =~= seq![first]);
                        assert((done + rest).last() == first);
                    }
                    return Err(e);
                },
            }
        }
    }
}

/// The kind of the word `name`.
fn keyword(name: &str) -> (r: TokenType)
    ensures
        r == word_kind(name@),
{
    if str_eq(name, "_") {
        TokenType::Blank
    } else if str_eq(name, "break") {
        TokenType::Break
    } else if str_eq(name, "case") {
        TokenType::Case
    } else if str_eq(name, "continue") {
        TokenType::Continue
    } else if str_eq(name, "default") {
        TokenType::Default
    } else if str_eq(name, "else") {
        TokenType::Else
    } else if str_eq(name, "for") {
        TokenType::For
    } else if str_eq(name, "func") {
        TokenType::Func
    } else if str_eq(name, "if") {
        TokenType::If
    } else if str_eq(name, "package") {
        TokenType::Package
    } else if str_eq(name, "return") {
        TokenType::Return
    } else if str_eq(name, "struct") {
        TokenType::Struct
    } else if str_eq(name, "switch") {
        TokenType::Switch
    } else if str_eq(name, "type") {
        TokenType::Type
    } else if str_eq(name, "var") {
        TokenType::Var
    } else if str_eq(name, "append") {
        TokenType::Append
    } else if str_eq(name, "print") {
        TokenType::Print
    } else if str_eq(name, "println") {
        TokenType::Println
    } else {
        TokenType::Id
    }
}

/// True if `c` belongs to `class`.
fn is_in_class(class: CharClass, c: char) -> (r: bool)
    ensures
        r == in_class(class, c),
{
    match class {
        CharClass::Digit => is_digit(c),
        CharClass::Hex => is_hex(c),
        CharClass::Alnum => is_alnum(c),
        CharClass::SameLine => c != '\n',
    }
}

} // verus!
