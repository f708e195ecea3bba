//! The laws of words: scanning the spelling of a reserved word gives that
//! word, scanning `_` gives the blank identifier, and scanning any other
//! word gives a name that carries the word.

use vstd::prelude::*;
use crate::lexical::{
    alnum, alpha, bytes_of, char_at, in_class, run_end, scan, text, word_at, word_kind,
    CharClass, Lexed,
};
use crate::token::TokenType;

verus! {

/// True if `word` is a word of the language: a letter or an underscore,
/// then letters, digits and underscores.
pub open spec fn is_word(word: Seq<u8>) -> bool {
    &&& word.len() > 0
    &&& alpha(char_at(word, 0))
    &&& forall|k: int| 0 <= k < word.len() ==> alnum(#[trigger] char_at(word, k))
}

/// A run that nothing interrupts goes on to the end of the text.
pub proof fn lemma_run_to_the_end(src: Seq<u8>, i: int, class: CharClass)
    requires
        0 <= i <= src.len(),
        forall|k: int| i <= k < src.len() ==> in_class(class, #[trigger] char_at(src, k)),
    ensures
        run_end(src, i, class) == src.len(),
    decreases src.len() - i,
{
    if i < src.len() {
        assert(in_class(class, char_at(src, i)));
        lemma_run_to_the_end(src, i + 1, class);
    }
}

/// A text that is one word scans as that word, whatever came before it.
pub proof fn lemma_word_alone(word: Seq<u8>, last: TokenType)
    requires
        is_word(word),
    ensures
        scan(word, 0, last) == word_at(word, 0),
        word_at(word, 0) matches Lexed::Token { kind, start, end, text: t } && kind == word_kind(
            text(word, 0, word.len() as int),
        ) && start == 0 && end == word.len(),
{
    lemma_run_to_the_end(word, 0, CharClass::Alnum);
    assert(alnum(char_at(word, 0)));
}

/// The spellings of the reserved words and of the blank identifier.
proof fn lemma_spellings()
    ensures
        "break"@ =~= seq!['b', 'r', 'e', 'a', 'k'],
        "case"@ =~= seq!['c', 'a', 's', 'e'],
        "continue"@ =~= seq!['c', 'o', 'n', 't', 'i', 'n', 'u', 'e'],
        "default"@ =~= seq!['d', 'e', 'f', 'a', 'u', 'l', 't'],
        "else"@ =~= seq!['e', 'l', 's', 'e'],
        "for"@ =~= seq!['f', 'o', 'r'],
        "func"@ =~= seq!['f', 'u', 'n', 'c'],
        "if"@ =~= seq!['i', 'f'],
        "package"@ =~= seq!['p', 'a', 'c', 'k', 'a', 'g', 'e'],
        "return"@ =~= seq!['r', 'e', 't', 'u', 'r', 'n'],
        "struct"@ =~= seq!['s', 't', 'r', 'u', 'c', 't'],
        "switch"@ =~= seq!['s', 'w', 'i', 't', 'c', 'h'],
        "type"@ =~= seq!['t', 'y', 'p', 'e'],
        "var"@ =~= seq!['v', 'a', 'r'],
        "append"@ =~= seq!['a', 'p', 'p', 'e', 'n', 'd'],
        "print"@ =~= seq!['p', 'r', 'i', 'n', 't'],
        "println"@ =~= seq!['p', 'r', 'i', 'n', 't', 'l', 'n'],
        "_"@ =~= seq!['_'],
{
    reveal_strlit("break");
    reveal_strlit("case");
    reveal_strlit("continue");
    reveal_strlit("default");
    reveal_strlit("else");
    reveal_strlit("for");
    reveal_strlit("func");
    reveal_strlit("if");
    reveal_strlit("package");
    reveal_strlit("return");
    reveal_strlit("struct");
    reveal_strlit("switch");
    reveal_strlit("type");
    reveal_strlit("var");
    reveal_strlit("append");
    reveal_strlit("print");
    reveal_strlit("println");
    reveal_strlit("_");
}

/// Every reserved word is a word, its spelling reads back as it was
/// written, and the kind of its spelling is the word itself.
pub proof fn lemma_keyword_spelling(kind: TokenType)
    requires
        kind.is_keyword(),
    ensures
        is_word(bytes_of(kind.text())),
        text(bytes_of(kind.text()), 0, kind.text().len() as int) == kind.text(),
        word_kind(kind.text()) == kind,
{
    lemma_spellings();
    let t = kind.text();
    let b = bytes_of(t);
    assert(text(b, 0, t.len() as int) =~= t);
    assert forall|k: int| 0 <= k < b.len() implies alnum(#[trigger] char_at(b, k)) by {
        assert(char_at(b, k) == t[k]);
    }
}

/// Scanning the spelling of a reserved word gives that word, without text.
pub proof fn lemma_keyword_round_trip(kind: TokenType, last: TokenType)
    requires
        kind.is_keyword(),
    ensures
        scan(bytes_of(kind.text()), 0, last) == (Lexed::Token {
            kind: kind,
            start: 0,
            end: kind.text().len() as int,
            text: None,
        }),
{
    lemma_keyword_spelling(kind);
    lemma_word_alone(bytes_of(kind.text()), last);
}

/// Scanning `_` alone gives the blank identifier, without text.
pub proof fn lemma_blank_round_trip(last: TokenType)
    ensures
        scan(bytes_of("_"@), 0, last) == (Lexed::Token {
            kind: TokenType::Blank,
            start: 0,
            end: 1,
            text: None,
        }),
{
    lemma_spellings();
    let b = bytes_of("_"@);
    assert(text(b, 0, 1) =~= "_"@);
    assert(char_at(b, 0) == '_');
    lemma_word_alone(b, last);
}

/// Scanning a word that is neither reserved nor `_` gives a name whose text
/// is the word.
pub proof fn lemma_name_round_trip(word: Seq<u8>, last: TokenType)
    requires
        is_word(word),
        text(word, 0, word.len() as int) != "_"@,
        forall|kind: TokenType|
            kind.is_keyword() ==> text(word, 0, word.len() as int) != #[trigger] kind.text(),
    ensures
        scan(word, 0, last) == (Lexed::Token {
            kind: TokenType::Id,
            start: 0,
            end: word.len() as int,
            text: Some(text(word, 0, word.len() as int)),
        }),
{
    lemma_word_alone(word, last);
    let t = text(word, 0, word.len() as int);
    assert(TokenType::Break.is_keyword() && t != TokenType::Break.text());
    assert(TokenType::Case.is_keyword() && t != TokenType::Case.text());
    assert(TokenType::Continue.is_keyword() && t != TokenType::Continue.text());
    assert(TokenType::Default.is_keyword() && t != TokenType::Default.text());
    assert(TokenType::Else.is_keyword() && t != TokenType::Else.text());
    assert(TokenType::For.is_keyword() && t != TokenType::For.text());
    assert(TokenType::Func.is_keyword() && t != TokenType::Func.text());
    assert(TokenType::If.is_keyword() && t != TokenType::If.text());
    assert(TokenType::Package.is_keyword() && t != TokenType::Package.text());
    assert(TokenType::Return.is_keyword() && t != TokenType::Return.text());
    assert(TokenType::Struct.is_keyword() && t != TokenType::Struct.text());
    assert(TokenType::Switch.is_keyword() && t != TokenType::Switch.text());
    assert(TokenType::Type.is_keyword() && t != TokenType::Type.text());
    assert(TokenType::Var.is_keyword() && t != TokenType::Var.text());
    assert(TokenType::Append.is_keyword() && t != TokenType::Append.text());
    assert(TokenType::Print.is_keyword() && t != TokenType::Print.text());
    assert(TokenType::Println.is_keyword() && t != TokenType::Println.text());
}

/// True if `word` stands in `src` at `p` as a whole word: it is a word, and
/// what follows it, if anything does, is no letter, digit or underscore.
pub open spec fn word_stands_at(src: Seq<u8>, p: int, word: Seq<u8>) -> bool {
    &&& is_word(word)
    &&& 0 <= p
    &&& p + word.len() <= src.len()
    &&& src.subrange(p, p + word.len()) == word
    &&& !alnum(char_at(src, p + word.len()))
}

/// A run of a class that is followed by a character outside the class, or
/// by nothing, ends there.
pub proof fn lemma_run_stops(src: Seq<u8>, i: int, end: int, class: CharClass)
    requires
        0 <= i <= end <= src.len(),
        forall|k: int| i <= k < end ==> in_class(class, #[trigger] char_at(src, k)),
        end == src.len() || !in_class(class, char_at(src, end)),
    ensures
        run_end(src, i, class) == end,
    decreases end - i,
{
    if i < end {
        assert(in_class(class, char_at(src, i)));
        lemma_run_stops(src, i + 1, end, class);
    }
}

/// A scan that starts at a whole word gives that word, wherever in a text
/// the word stands and whatever came before it: its kind is the kind of
/// the word, it spans the word, and it carries the word if it is a name.
pub proof fn lemma_word_in_text(src: Seq<u8>, p: int, word: Seq<u8>, last: TokenType)
    requires
        word_stands_at(src, p, word),
    ensures
        scan(src, p, last) == ({
            let t = text(word, 0, word.len() as int);
            Lexed::Token {
                kind: word_kind(t),
                start: p,
                end: p + word.len(),
                text: if word_kind(t) == TokenType::Id {
                    Some(t)
                } else {
                    None
                },
            }
        }),
{
    let end = p + word.len();
    assert forall|k: int| p <= k < end implies in_class(
        CharClass::Alnum,
        #[trigger] char_at(src, k),
    ) by {
        assert(src[k] == src.subrange(p, end)[k - p]);
        assert(alnum(char_at(word, k - p)));
    }
    lemma_run_stops(src, p, end, CharClass::Alnum);
    assert(char_at(src, p) == char_at(word, 0)) by {
        assert(src[p] == src.subrange(p, end)[0]);
    }
    assert(text(src, p, end) =~= text(word, 0, word.len() as int)) by {
        assert forall|k: int| 0 <= k < word.len() implies char_at(src, p + k) == char_at(
            word,
            k,
        ) by {
            assert(src[p + k] == src.subrange(p, end)[k]);
        }
    }
}

/// A scan that starts at a reserved word gives that word, without text,
/// wherever in a text the word stands.
pub proof fn lemma_keyword_in_text(src: Seq<u8>, p: int, kind: TokenType, last: TokenType)
    requires
        kind.is_keyword(),
        word_stands_at(src, p, bytes_of(kind.text())),
    ensures
        scan(src, p, last) == (Lexed::Token {
            kind: kind,
            start: p,
            end: p + kind.text().len(),
            text: None,
        }),
{
    lemma_keyword_spelling(kind);
    lemma_word_in_text(src, p, bytes_of(kind.text()), last);
}

/// A scan that starts at a word that is neither reserved nor `_` gives a
/// name whose text is the word, wherever in a text the word stands.
pub proof fn lemma_name_in_text(src: Seq<u8>, p: int, word: Seq<u8>, last: TokenType)
    requires
        word_stands_at(src, p, word),
        text(word, 0, word.len() as int) != "_"@,
        forall|kind: TokenType|
            kind.is_keyword() ==> text(word, 0, word.len() as int) != #[trigger] kind.text(),
    ensures
        scan(src, p, last) == (Lexed::Token {
            kind: TokenType::Id,
            start: p,
            end: p + word.len(),
            text: Some(text(word, 0, word.len() as int)),
        }),
{
    lemma_word_in_text(src, p, word, last);
    lemma_name_round_trip(word, last);
    lemma_word_alone(word, last);
}

} // verus!
