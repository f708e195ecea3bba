//! The law of the longest match: of the operators and punctuation marks
//! that are spelled at a position, the scanner takes a longest one.

use vstd::prelude::*;
use crate::lexical::{
    bytes_of, char_at, digit, operator_at, operator_len, scan, token_at, Lexed,
};
use crate::token::TokenType;

verus! {

/// True if the characters of `t` stand in `src` from `p` on.
pub open spec fn spelled_at(src: Seq<u8>, p: int, t: Seq<char>) -> bool {
    &&& 0 <= p
    &&& p + t.len() <= src.len()
    &&& forall|k: int| 0 <= k < t.len() ==> char_at(src, p + k) == #[trigger] t[k]
}

/// How each operator and punctuation mark is spelled.
proof fn lemma_operator_spellings()
    ensures
        "+"@ =~= seq!['+'],
        "-"@ =~= seq!['-'],
        "*"@ =~= seq!['*'],
        "/"@ =~= seq!['/'],
        "%"@ =~= seq!['%'],
        "+="@ =~= seq!['+', '='],
        "-="@ =~= seq!['-', '='],
        "*="@ =~= seq!['*', '='],
        "/="@ =~= seq!['/', '='],
        "%="@ =~= seq!['%', '='],
        "="@ =~= seq!['='],
        ":="@ =~= seq![':', '='],
        "&"@ =~= seq!['&'],
        "|"@ =~= seq!['|'],
        "^"@ =~= seq!['^'],
        "&="@ =~= seq!['&', '='],
        "|="@ =~= seq!['|', '='],
        "<<"@ =~= seq!['<', '<'],
        ">>"@ =~= seq!['>', '>'],
        "<<="@ =~= seq!['<', '<', '='],
        ">>="@ =~= seq!['>', '>', '='],
        "&^"@ =~= seq!['&', '^'],
        "&&"@ =~= seq!['&', '&'],
        "||"@ =~= seq!['|', '|'],
        "!"@ =~= seq!['!'],
        "++"@ =~= seq!['+', '+'],
        "--"@ =~= seq!['-', '-'],
        "=="@ =~= seq!['=', '='],
        "!="@ =~= seq!['!', '='],
        "<"@ =~= seq!['<'],
        "<="@ =~= seq!['<', '='],
        ">"@ =~= seq!['>'],
        ">="@ =~= seq!['>', '='],
        "("@ =~= seq!['('],
        ")"@ =~= seq![')'],
        "["@ =~= seq!['['],
        "]"@ =~= seq![']'],
        "{"@ =~= seq!['{'],
        "}"@ =~= seq!['}'],
        ","@ =~= seq![','],
        "."@ =~= seq!['.'],
        ";"@ =~= seq![';'],
        ":"@ =~= seq![':'],
{
    reveal_strlit("+");
    reveal_strlit("-");
    reveal_strlit("*");
    reveal_strlit("/");
    reveal_strlit("%");
    reveal_strlit("+=");
    reveal_strlit("-=");
    reveal_strlit("*=");
    reveal_strlit("/=");
    reveal_strlit("%=");
    reveal_strlit("=");
    reveal_strlit(":=");
    reveal_strlit("&");
    reveal_strlit("|");
    reveal_strlit("^");
    reveal_strlit("&=");
    reveal_strlit("|=");
    reveal_strlit("<<");
    reveal_strlit(">>");
    reveal_strlit("<<=");
    reveal_strlit(">>=");
    reveal_strlit("&^");
    reveal_strlit("&&");
    reveal_strlit("||");
    reveal_strlit("!");
    reveal_strlit("++");
    reveal_strlit("--");
    reveal_strlit("==");
    reveal_strlit("!=");
    reveal_strlit("<");
    reveal_strlit("<=");
    reveal_strlit(">");
    reveal_strlit(">=");
    reveal_strlit("(");
    reveal_strlit(")");
    reveal_strlit("[");
    reveal_strlit("]");
    reveal_strlit("{");
    reveal_strlit("}");
    reveal_strlit(",");
    reveal_strlit(".");
    reveal_strlit(";");
    reveal_strlit(":");
}

/// Every operator and punctuation mark is as long as `operator_len` says.
pub proof fn lemma_operator_texts(kind: TokenType)
    requires
        kind.is_operator(),
    ensures
        kind.text().len() == operator_len(kind),
{
    lemma_operator_spellings();
}

/// The longest match wins: where the spelling of an operator or punctuation
/// mark `other` stands at `p`, the operator found at `p` is spelled there
/// too, and is at least as long as `other`.
pub proof fn lemma_longest_operator(src: Seq<u8>, p: int, other: TokenType)
    requires
        other.is_operator(),
        spelled_at(src, p, other.text()),
    ensures
        operator_at(src, p) is Some,
        operator_at(src, p)->0.is_operator(),
        spelled_at(src, p, operator_at(src, p)->0.text()),
        other.text().len() <= operator_at(src, p)->0.text().len(),
{
    lemma_operator_spellings();
    let t = other.text();
    assert(char_at(src, p) == t[0]);
    if t.len() >= 2 {
        assert(char_at(src, p + 1) == t[1]);
    }
    if t.len() >= 3 {
        assert(char_at(src, p + 2) == t[2]);
    }
}

/// Scanning the spelling of an operator or punctuation mark gives that very
/// operator or mark, whole and without text, whatever came before it.
pub proof fn lemma_operator_round_trip(kind: TokenType, last: TokenType)
    requires
        kind.is_operator(),
    ensures
        scan(bytes_of(kind.text()), 0, last) == (Lexed::Token {
            kind: kind,
            start: 0,
            end: kind.text().len() as int,
            text: None,
        }),
{
    lemma_operator_spellings();
    let t = kind.text();
    let src = bytes_of(t);
    assert(char_at(src, 0) == t[0]);
    if t.len() >= 2 {
        assert(char_at(src, 1) == t[1]);
    }
    if t.len() >= 3 {
        assert(char_at(src, 2) == t[2]);
    }
}

/// The token at a position where an operator or punctuation mark `other`
/// is spelled is an operator or punctuation mark that is spelled there and
/// is at least as long as `other`; it spans its spelling and carries no
/// text. The one exception is a period before a digit, which starts a
/// float.
pub proof fn lemma_operator_token(src: Seq<u8>, p: int, semi: bool, other: TokenType)
    requires
        other.is_operator(),
        spelled_at(src, p, other.text()),
        !(char_at(src, p) == '.' && digit(char_at(src, p + 1))),
    ensures
        token_at(src, p, semi) matches Lexed::Token { kind, start, end, text } && {
            &&& kind.is_operator()
            &&& spelled_at(src, p, kind.text())
            &&& start == p
            &&& end == p + kind.text().len()
            &&& other.text().len() <= kind.text().len()
            &&& text is None
        },
{
    lemma_longest_operator(src, p, other);
    lemma_operator_texts(other);
    lemma_operator_texts(operator_at(src, p)->0);
}

} // verus!
