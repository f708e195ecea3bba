//! The laws of semicolon insertion.
//!
//! A scan inserts a semicolon at most once before the next token of the
//! text, and only after a token that can end a statement; what comes after
//! the inserted semicolon is what would have come without it.

use vstd::prelude::*;
use crate::lexical::{
    alpha, char_at, comment_end, digit, has_newline, in_class, lemma_comment_end_bounds,
    lemma_run_end_bounds, needs_semicolon, operator_at, run_end, scan, skip, token_at,
    whitespace, CharClass, Lexed, Skipped,
};
use crate::lexical_laws::{
    lemma_number_at_bounds, lemma_raw_string_from_bounds, lemma_skip_bounds,
    lemma_string_from_bounds,
};
use crate::token::TokenType;

verus! {

/// The kinds that can end a statement are names and the blank identifier,
/// the literals, `break`, `continue` and `return`, `++` and `--`, the
/// closing brackets of all three shapes, and the end-of-file token. No
/// other kind can: not an inserted or written semicolon, and not the kind
/// that stands for "no token yet".
pub proof fn lemma_statement_enders(k: TokenType)
    ensures
        needs_semicolon(k) <==> (k == TokenType::Id || k == TokenType::Blank || k
            == TokenType::Int || k == TokenType::IntOct || k == TokenType::IntHex || k
            == TokenType::Float || k == TokenType::Rune || k == TokenType::String || k
            == TokenType::Break || k == TokenType::Continue || k == TokenType::Return || k
            == TokenType::Incr || k == TokenType::Decr || k == TokenType::RParen || k
            == TokenType::RBracket || k == TokenType::RBrace || k == TokenType::Eof),
        !needs_semicolon(TokenType::Semi),
        !needs_semicolon(TokenType::Start),
{
}

/// True if `lexed` is a semicolon that stands for a line end or for the end
/// of the text, and not for a `;` in the text.
pub open spec fn inserted(src: Seq<u8>, lexed: Lexed) -> bool {
    lexed matches Lexed::Token { kind, start, .. } && kind == TokenType::Semi && char_at(
        src,
        start,
    ) != ';'
}

/// Where the white space and the comments that start at `i` end: at the
/// next token, at the end of the text, or at a block comment that is never
/// closed.
pub open spec fn gap_end(src: Seq<u8>, i: int) -> int {
    match skip(src, i, false) {
        Skipped::Ready(p) => p,
        Skipped::Unclosed { at } => at,
        Skipped::Semi { at, resume } => i,
    }
}

/// True if a line ends between `pos` and the next token: at a newline,
/// alone or behind a line comment, inside a block comment, or at the end of
/// the text.
pub open spec fn line_ends_before_token(src: Seq<u8>, pos: int) -> bool {
    has_newline(src, pos, gap_end(src, pos)) || skip(src, pos, false) == Skipped::Ready(
        src.len() as int,
    )
}

/// No newline stands inside a line comment.
pub proof fn lemma_same_line_run(src: Seq<u8>, i: int)
    requires
        0 <= i,
    ensures
        !has_newline(src, i, run_end(src, i, CharClass::SameLine)),
    decreases src.len() - i,
{
    if i < src.len() && in_class(CharClass::SameLine, char_at(src, i)) {
        lemma_same_line_run(src, i + 1);
    }
}

/// Skipping with insertion and skipping without meet the same white space
/// and comments. With insertion the skipping stops at the first line end, if
/// there is one, and from where it resumes the rest is skipped as before.
pub proof fn lemma_skip_insertion(src: Seq<u8>, i: int)
    requires
        0 <= i <= src.len(),
    ensures
        i <= gap_end(src, i) <= src.len(),
        !(skip(src, i, false) is Semi),
        match skip(src, i, true) {
            Skipped::Semi { at, resume } => {
                &&& char_at(src, at) != ';'
                &&& i <= at <= resume <= src.len()
                &&& skip(src, resume, false) == skip(src, i, false)
                &&& has_newline(src, i, gap_end(src, i))
            },
            other => other == skip(src, i, false) && !has_newline(src, i, gap_end(src, i)),
        },
    decreases src.len() - i,
{
    let c = char_at(src, i);
    lemma_skip_bounds(src, i, false);
    if i >= src.len() {
    } else if whitespace(c) {
        lemma_skip_insertion(src, i + 1);
        lemma_skip_bounds(src, i + 1, false);
        if c == '\n' {
            assert(char_at(src, i) == '\n');
        }
    } else if c == '/' && char_at(src, i + 1) == '/' {
        let end = run_end(src, i + 2, CharClass::SameLine);
        lemma_run_end_bounds(src, i + 2, CharClass::SameLine);
        lemma_same_line_run(src, i + 2);
        lemma_skip_insertion(src, end);
        lemma_skip_bounds(src, end, false);
    } else if c == '/' && char_at(src, i + 1) == '*' {
        lemma_comment_end_bounds(src, i + 2);
        match comment_end(src, i + 2) {
            None => {},
            Some(end) => {
                lemma_skip_bounds(src, end, false);
                if has_newline(src, i + 2, end) {
                    let k = choose|k: int| i + 2 <= k < end && char_at(src, k) == '\n';
                    assert(char_at(src, k) == '\n');
                } else {
                    lemma_skip_insertion(src, end);
                }
            },
        }
    }
}

/// The token that stands at a position of the text is no inserted
/// semicolon, unless the text ends there and a semicolon is asked for.
pub proof fn lemma_token_at_not_inserted(src: Seq<u8>, p: int, semi: bool)
    requires
        0 <= p <= src.len(),
        p < src.len() || !semi,
    ensures
        !inserted(src, token_at(src, p, semi)),
        token_at(src, p, semi) == token_at(src, p, false),
{
    let c = char_at(src, p);
    if p >= src.len() {
    } else if c == '.' && digit(char_at(src, p + 1)) {
        lemma_number_at_bounds(src, p);
    } else if operator_at(src, p) is Some {
    } else if alpha(c) {
    } else if digit(c) {
        lemma_number_at_bounds(src, p);
    } else if c == '"' {
        lemma_string_from_bounds(src, p, p + 1, Seq::empty());
    } else if c == '`' {
        lemma_raw_string_from_bounds(src, p, p + 1, Seq::empty());
    }
}

/// After a token that cannot end a statement no semicolon is inserted: the
/// scan gives what the text holds, whatever line ends it crosses.
pub proof fn lemma_no_insertion(src: Seq<u8>, pos: int, last: TokenType)
    requires
        0 <= pos <= src.len(),
        !needs_semicolon(last),
    ensures
        scan(src, pos, last) == scan(src, pos, TokenType::Start),
        !inserted(src, scan(src, pos, last)),
{
    lemma_skip_insertion(src, pos);
    lemma_skip_bounds(src, pos, false);
    match skip(src, pos, false) {
        Skipped::Ready(p) => {
            lemma_token_at_not_inserted(src, p, false);
        },
        _ => {},
    }
}

/// After a token that can end a statement, a line end before the next token
/// gives exactly one inserted semicolon: the scan gives it, and the scan
/// after it gives what would have come without insertion. Where no line
/// ends before the next token, nothing is inserted.
pub proof fn lemma_insertion(src: Seq<u8>, pos: int, last: TokenType)
    requires
        0 <= pos <= src.len(),
        needs_semicolon(last),
    ensures
        !inserted(src, scan(src, pos, TokenType::Start)),
        if line_ends_before_token(src, pos) {
            &&& inserted(src, scan(src, pos, last))
            &&& scan(src, pos, last) matches Lexed::Token { end, .. } && pos <= end <= src.len()
                && scan(src, end, TokenType::Semi) == scan(src, pos, TokenType::Start)
        } else {
            scan(src, pos, last) == scan(src, pos, TokenType::Start)
        },
{
    lemma_no_insertion(src, pos, TokenType::Start);
    lemma_skip_insertion(src, pos);
    match skip(src, pos, true) {
        Skipped::Ready(p) => {
            if p < src.len() {
                lemma_token_at_not_inserted(src, p, true);
            } else {
                assert(skip(src, p, false) == Skipped::Ready(p));
            }
        },
        _ => {},
    }
}

} // verus!
