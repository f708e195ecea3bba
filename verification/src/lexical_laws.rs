//! What holds of the lexical grammar on every text.

use vstd::prelude::*;
use crate::lexical::{
    alpha, char_at, comment_end, digit, has_newline, lemma_comment_end_bounds,
    lemma_run_end_bounds, needs_semicolon, number_at, operator_at, operator_len, operator_of,
    raw_string_from, run_end, scan, skip, string_from, token_at, CharClass, Lexed, Skipped,
};
use crate::error::ErrorTypeView;
use crate::token::TokenType;

verus! {

/// Skipping never goes back, and never leaves the text. A semicolon is only
/// asked for where `semi` holds.
pub proof fn lemma_skip_bounds(src: Seq<u8>, i: int, semi: bool)
    requires
        0 <= i <= src.len(),
    ensures
        match skip(src, i, semi) {
            Skipped::Ready(p) => i <= p <= src.len(),
            Skipped::Semi { at, resume } => semi && i <= at <= resume <= src.len(),
            Skipped::Unclosed { at } => i <= at < src.len(),
        },
    decreases src.len() - i,
{
    let c = char_at(src, i);
    if i >= src.len() {
    } else if crate::lexical::whitespace(c) {
        if !(c == '\n' && semi) {
            lemma_skip_bounds(src, i + 1, semi);
        }
    } else if c == '/' && char_at(src, i + 1) == '/' {
        lemma_run_end_bounds(src, i + 2, CharClass::SameLine);
        lemma_skip_bounds(src, run_end(src, i + 2, CharClass::SameLine), semi);
    } else if c == '/' && char_at(src, i + 1) == '*' {
        lemma_comment_end_bounds(src, i + 2);
        match comment_end(src, i + 2) {
            None => {},
            Some(end) => {
                if !(semi && has_newline(src, i + 2, end)) {
                    lemma_skip_bounds(src, end, semi);
                }
            },
        }
    }
}

/// An interpreted string ends behind the characters read so far, inside the
/// text; an error in it lies there too.
pub proof fn lemma_string_from_bounds(src: Seq<u8>, open: int, i: int, content: Seq<char>)
    requires
        0 <= open < i <= src.len(),
    ensures
        match string_from(src, open, i, content) {
            Lexed::Token { kind, start, end, text } => kind == TokenType::String && start == open
                && i < end <= src.len(),
            Lexed::Failure { error, at } => open <= at <= src.len(),
        },
    decreases src.len() - i,
{
    let c = char_at(src, i);
    if i >= src.len() {
    } else if c == '"' {
    } else if c == '\\' {
        match crate::lexical::escape(char_at(src, i + 1), '"') {
            Some(code) => {
                lemma_string_from_bounds(src, open, i + 2, content.push(code));
            },
            None => {},
        }
    } else if c == '\n' {
    } else {
        lemma_string_from_bounds(src, open, i + 1, content.push(c));
    }
}

/// A raw string ends behind the characters read so far, inside the text; an
/// error in it lies there too.
pub proof fn lemma_raw_string_from_bounds(src: Seq<u8>, open: int, i: int, content: Seq<char>)
    requires
        0 <= open < i <= src.len(),
    ensures
        match raw_string_from(src, open, i, content) {
            Lexed::Token { kind, start, end, text } => kind == TokenType::String && start == open
                && i < end <= src.len(),
            Lexed::Failure { error, at } => open <= at <= src.len(),
        },
    decreases src.len() - i,
{
    let c = char_at(src, i);
    if i >= src.len() {
    } else if c == '`' {
    } else if c == '\\' && char_at(src, i + 1) == 'r' {
        lemma_raw_string_from_bounds(src, open, i + 2, content);
    } else {
        lemma_raw_string_from_bounds(src, open, i + 1, content.push(c));
    }
}

/// A token starts where it is looked for and ends inside the text; before
/// the end of the text it is not empty. An error lies inside the text.
pub proof fn lemma_token_at_bounds(src: Seq<u8>, p: int, semi: bool)
    requires
        0 <= p <= src.len(),
    ensures
        match token_at(src, p, semi) {
            Lexed::Token { kind, start, end, text } => {
                &&& start == p
                &&& p <= end <= src.len()
                &&& p < src.len() ==> p < end
                &&& p < src.len() ==> kind != TokenType::Eof
            },
            Lexed::Failure { error, at } => p <= at <= src.len(),
        },
{
    let c = char_at(src, p);
    if p >= src.len() {
    } else if c == '.' && digit(char_at(src, p + 1)) {
        lemma_number_at_bounds(src, p);
    } else if operator_at(src, p) is Some {
        lemma_operator_fits(char_at(src, p), char_at(src, p + 1), char_at(src, p + 2));
    } else if alpha(c) {
        lemma_run_end_bounds(src, p + 1, CharClass::Alnum);
    } else if digit(c) {
        lemma_number_at_bounds(src, p);
    } else if c == '"' {
        lemma_string_from_bounds(src, p, p + 1, Seq::empty());
    } else if c == '`' {
        lemma_raw_string_from_bounds(src, p, p + 1, Seq::empty());
    }
}

/// An operator is made of as many characters as its length says, and none
/// of them is NUL.
pub proof fn lemma_operator_fits(a: char, b: char, c: char)
    ensures
        operator_of(a, b, c) matches Some(kind) ==> {
            &&& kind.is_operator()
            &&& 1 <= operator_len(kind) <= 3
            &&& a != '\0'
            &&& operator_len(kind) >= 2 ==> b != '\0'
            &&& operator_len(kind) >= 3 ==> c != '\0'
        },
{
}

/// A numeric literal that starts with a digit, or with a period before a
/// digit, is not empty and ends inside the text.
pub proof fn lemma_number_at_bounds(src: Seq<u8>, p: int)
    requires
        0 <= p < src.len(),
        digit(char_at(src, p)) || (char_at(src, p) == '.' && digit(char_at(src, p + 1))),
    ensures
        match number_at(src, p) {
            Lexed::Token { kind, start, end, text } => {
                &&& start == p
                &&& p < end <= src.len()
                &&& kind == TokenType::IntHex || kind == TokenType::Float || kind
                    == TokenType::IntOct || kind == TokenType::Int
            },
            Lexed::Failure { error, at } => at == p,
        },
{
    if crate::lexical::hex_prefix_at(src, p) {
        lemma_run_end_bounds(src, p + 2, CharClass::Hex);
    } else {
        lemma_run_end_bounds(src, p, CharClass::Digit);
        if digit(char_at(src, p)) {
            lemma_run_end_bounds(src, p + 1, CharClass::Digit);
        }
        let end = run_end(src, p, CharClass::Digit);
        if char_at(src, end) == '.' {
            lemma_run_end_bounds(src, end + 1, CharClass::Digit);
        }
    }
}

/// One scan never goes back and never leaves the text. It gives out the
/// end-of-file token only at the end of the text, and it stands still only
/// to insert a semicolon.
pub proof fn lemma_scan_bounds(src: Seq<u8>, pos: int, last: TokenType)
    requires
        0 <= pos <= src.len(),
    ensures
        match scan(src, pos, last) {
            Lexed::Token { kind, start, end, text } => {
                &&& pos <= start <= end <= src.len()
                &&& kind == TokenType::Eof ==> end == src.len()
                &&& end == pos ==> kind == TokenType::Eof || (kind == TokenType::Semi
                    && needs_semicolon(last))
            },
            Lexed::Failure { error, at } => pos <= at <= src.len(),
        },
{
    lemma_skip_bounds(src, pos, needs_semicolon(last));
    match skip(src, pos, needs_semicolon(last)) {
        Skipped::Ready(p) => {
            lemma_token_at_bounds(src, p, needs_semicolon(last));
        },
        _ => {},
    }
}

/// How much work is left: it shrinks with every token but the last.
pub open spec fn remaining(src: Seq<u8>, pos: int, last: TokenType) -> int {
    2 * (src.len() - pos) + if needs_semicolon(last) {
        1int
    } else {
        0int
    }
}

/// Every token but the end-of-file token leaves less work than there was.
pub proof fn lemma_scan_progress(src: Seq<u8>, pos: int, last: TokenType)
    requires
        0 <= pos <= src.len(),
    ensures
        remaining(src, pos, last) >= 0,
        scan(src, pos, last) matches Lexed::Token { kind, end, .. } ==> (kind != TokenType::Eof
            ==> pos <= end <= src.len() && remaining(src, end, kind) < remaining(src, pos, last)),
{
    lemma_scan_bounds(src, pos, last);
}

/// What scanning from `pos` on gives, one outcome per scan: tokens up to the
/// end-of-file token, or up to the first error, which then comes last.
pub open spec fn scan_all(src: Seq<u8>, pos: int, last: TokenType) -> Seq<Lexed>
    decreases remaining(src, pos, last),
{
    let first = scan(src, pos, last);
    match first {
        Lexed::Token { kind, start, end, text } => {
            if kind == TokenType::Eof || !(0 <= pos <= src.len()) {
                seq![first]
            } else {
                proof {
                    lemma_scan_progress(src, pos, last);
                }
                seq![first] + scan_all(src, end, kind)
            }
        },
        Lexed::Failure { error, at } => seq![first],
    }
}

/// Scanning a text to its end gives tokens that are not the end-of-file
/// token, and then one outcome more: the end-of-file token or an error.
pub proof fn lemma_scan_all_shape(src: Seq<u8>, pos: int, last: TokenType)
    requires
        0 <= pos <= src.len(),
    ensures
        scan_all(src, pos, last).len() >= 1,
        forall|i: int|
            0 <= i < scan_all(src, pos, last).len() - 1 ==> (#[trigger] scan_all(
                src,
                pos,
                last,
            )[i] matches Lexed::Token { kind, .. } && kind != TokenType::Eof),
        match scan_all(src, pos, last).last() {
            Lexed::Token { kind, .. } => kind == TokenType::Eof,
            Lexed::Failure { .. } => true,
        },
    decreases remaining(src, pos, last),
{
    let first = scan(src, pos, last);
    match first {
        Lexed::Token { kind, start, end, text } => {
            if kind != TokenType::Eof {
                lemma_scan_progress(src, pos, last);
                lemma_scan_all_shape(src, end, kind);
                let rest = scan_all(src, end, kind);
                let all = scan_all(src, pos, last);
                assert(all =~= seq![first] + rest);
                assert forall|i: int| 0 <= i < all.len() - 1 implies (#[trigger] all[i] matches Lexed::Token {
                    kind,
                    ..
                } && kind != TokenType::Eof) by {
                    if i > 0 {
                        assert(all[i] == rest[i - 1]);
                    }
                }
                assert(all.last() == rest.last());
            }
        },
        Lexed::Failure { error, at } => {},
    }
}

/// A block comment that nothing closes has no end.
pub proof fn lemma_comment_without_end(src: Seq<u8>, i: int)
    requires
        forall|k: int| i <= k ==> !(char_at(src, k) == '*' && #[trigger] char_at(src, k + 1) == '/'),
    ensures
        comment_end(src, i) is None,
    decreases src.len() - i,
{
    if 0 <= i < src.len() {
        assert(!(char_at(src, i) == '*' && char_at(src, i + 1) == '/'));
        lemma_comment_without_end(src, i + 1);
    }
}

/// A block comment that is never closed is an error, reported where the
/// comment opens.
pub proof fn lemma_unclosed_comment(src: Seq<u8>, pos: int, last: TokenType)
    requires
        0 <= pos,
        char_at(src, pos) == '/',
        char_at(src, pos + 1) == '*',
        forall|k: int|
            pos + 2 <= k ==> !(char_at(src, k) == '*' && #[trigger] char_at(src, k + 1) == '/'),
    ensures
        scan(src, pos, last) == (Lexed::Failure {
            error: ErrorTypeView::TrailingBlockComment,
            at: pos,
        }),
{
    lemma_comment_without_end(src, pos + 2);
}

} // verus!
