use gore::error::ErrorType as ET;
use gore::scanner::Scanner;
use gore::token::Token;
use gore::token::TokenType as TT;

fn scan_all(src: &[u8]) -> Vec<Token> {
    let mut scanner = Scanner::new("f.go".to_string(), src.to_vec());
    match scanner.all_tokens() {
        Ok(tokens) => tokens,
        Err(e) => panic!("unexpected error {:?}", e),
    }
}

fn kinds(src: &[u8]) -> Vec<TT> {
    scan_all(src).iter().map(|t| t.ty).collect()
}

fn first_lexeme(src: &[u8]) -> String {
    let mut scanner = Scanner::new("f.go".to_string(), src.to_vec());
    match scanner.next() {
        Ok(Token { lexeme: Some(text), .. }) => text,
        other => panic!("no lexeme in {:?}", other),
    }
}

fn first_error(src: &[u8]) -> (ET, usize, usize) {
    let mut scanner = Scanner::new("f.go".to_string(), src.to_vec());
    loop {
        match scanner.next() {
            Ok(tok) => {
                assert!(tok.ty != TT::Eof, "no error in the text");
            }
            Err(e) => {
                assert_eq!("f.go", e.loc.filename);
                return (e.ty, e.loc.line, e.loc.col);
            }
        }
    }
}

#[test]
fn longest_operator_is_taken() {
    assert_eq!(vec![TT::LeftShiftEq, TT::Eof], kinds(b"<<="));
    assert_eq!(vec![TT::RightShiftEq, TT::Eof], kinds(b">>="));
    assert_eq!(vec![TT::LeftShift, TT::Lt, TT::Eof], kinds(b"<<<"));
    assert_eq!(vec![TT::LeftShiftEq, TT::Assign, TT::Eof], kinds(b"<<=="));
    assert_eq!(vec![TT::RightShift, TT::Ge, TT::Eof], kinds(b">>>="));
    assert_eq!(vec![TT::BitClear, TT::Assign, TT::Eof], kinds(b"&^="));
    assert_eq!(vec![TT::And, TT::Bitand, TT::Eof], kinds(b"&&&"));
    assert_eq!(vec![TT::Or, TT::Assign, TT::Eof], kinds(b"||="));
    assert_eq!(vec![TT::Bitor, TT::BitorEq, TT::Eof], kinds(b"| |="));
    assert_eq!(vec![TT::Incr, TT::Plus, TT::Eof], kinds(b"+++"));
    assert_eq!(vec![TT::Decr, TT::MinusEq, TT::Eof], kinds(b"---="));
    assert_eq!(vec![TT::Eq, TT::Assign, TT::Eof], kinds(b"==="));
    assert_eq!(vec![TT::Ne, TT::Assign, TT::Eof], kinds(b"!=="));
    assert_eq!(vec![TT::ColonEq, TT::Assign, TT::Eof], kinds(b":=="));
    assert_eq!(vec![TT::Le, TT::Lt, TT::Eof], kinds(b"<=<"));
    assert_eq!(vec![TT::SlashEq, TT::Slash, TT::Eof], kinds(b"/=/"));
    assert_eq!(vec![TT::Star, TT::Slash, TT::Eof], kinds(b"*/"));
}

#[test]
fn period_before_digit_starts_float() {
    assert_eq!(vec![TT::Dot, TT::Float, TT::Semi, TT::Eof], kinds(b"..5"));
    assert_eq!(vec![TT::Id, TT::Float, TT::Semi, TT::Eof], kinds(b"x.5"));
    assert_eq!(vec![TT::Id, TT::Dot, TT::Id, TT::Semi, TT::Eof], kinds(b"x.y"));
    assert_eq!(vec![TT::Float, TT::Float, TT::Semi, TT::Eof], kinds(b"1.2.3"));
    assert_eq!(".5", first_lexeme(b".5"));
    assert_eq!("0.5", first_lexeme(b"0.5"));
    assert_eq!("5.", first_lexeme(b"5."));
    assert_eq!("08.5", first_lexeme(b"08.5"));
}

#[test]
fn numeric_literal_errors() {
    assert_eq!((ET::MalformedHexLiteral, 1, 1), first_error(b"0x"));
    assert_eq!((ET::MalformedHexLiteral, 1, 1), first_error(b"0X"));
    assert_eq!((ET::MalformedHexLiteral, 1, 3), first_error(b"+ 0xg"));
    assert_eq!((ET::MalformedOctLiteral, 1, 1), first_error(b"08"));
    assert_eq!((ET::MalformedOctLiteral, 2, 2), first_error(b"\n 0179"));
    assert_eq!(vec![TT::IntHex, TT::Id, TT::Semi, TT::Eof], kinds(b"0x1G"));
    assert_eq!("1", first_lexeme(b"0x1G"));
    assert_eq!("DeadBeef", first_lexeme(b"0xDeadBeef"));
    assert_eq!(vec![TT::IntOct, TT::Id, TT::Semi, TT::Eof], kinds(b"0b"));
}

#[test]
fn tokens_are_located_at_their_first_character() {
    let toks = scan_all(b"a += b\n  c");
    let seen: Vec<(TT, usize, usize)> = toks.iter().map(|t| (t.ty, t.loc.line, t.loc.col)).collect();
    assert_eq!(
        vec![
            (TT::Id, 1, 1),
            (TT::PlusEq, 1, 3),
            (TT::Id, 1, 6),
            (TT::Semi, 1, 7),
            (TT::Id, 2, 3),
            (TT::Semi, 2, 4),
            (TT::Eof, 2, 4),
        ],
        seen
    );
    for t in toks.iter() {
        assert_eq!("f.go", t.loc.filename);
    }
}

#[test]
fn columns_count_every_character() {
    let toks = scan_all(b"x<<=0x1f;\t`a\nb` 'c'");
    let seen: Vec<(TT, usize, usize)> = toks.iter().map(|t| (t.ty, t.loc.line, t.loc.col)).collect();
    assert_eq!(
        vec![
            (TT::Id, 1, 1),
            (TT::LeftShiftEq, 1, 2),
            (TT::IntHex, 1, 5),
            (TT::Semi, 1, 9),
            (TT::String, 1, 11),
            (TT::Rune, 2, 4),
            (TT::Semi, 2, 7),
            (TT::Eof, 2, 7),
        ],
        seen
    );
}

#[test]
fn semicolon_for_block_comment_with_newline() {
    let toks = scan_all(b"x /* a\nb */ y");
    let seen: Vec<(TT, usize, usize)> = toks.iter().map(|t| (t.ty, t.loc.line, t.loc.col)).collect();
    assert_eq!(
        vec![(TT::Id, 1, 1), (TT::Semi, 1, 3), (TT::Id, 2, 6), (TT::Semi, 2, 7), (TT::Eof, 2, 7)],
        seen
    );
}

#[test]
fn no_semicolon_for_block_comment_on_one_line() {
    assert_eq!(vec![TT::Id, TT::Id, TT::Semi, TT::Eof], kinds(b"x /* a b */ y"));
    assert_eq!(vec![TT::Plus, TT::Int, TT::Semi, TT::Eof], kinds(b"+ /* a\nb */ 1"));
}

#[test]
fn one_semicolon_for_many_line_ends() {
    assert_eq!(
        vec![TT::Id, TT::Semi, TT::Id, TT::Semi, TT::Eof],
        kinds(b"x\n\n// c\n/* d\n */\n\ny")
    );
    assert_eq!(vec![TT::Id, TT::Semi, TT::Eof], kinds(b"x // c"));
    assert_eq!(vec![TT::Id, TT::Semi, TT::Eof], kinds(b"x;\n"));
    assert_eq!(vec![TT::RBrace, TT::Semi, TT::Else, TT::Eof], kinds(b"}\nelse"));
    assert_eq!(vec![TT::String, TT::Semi, TT::Rune, TT::Semi, TT::Eof], kinds(b"\"s\"\n'r'\n"));
    assert_eq!(vec![TT::IntOct, TT::Semi, TT::Eof], kinds(b"017\n"));
}

#[test]
fn unfinished_block_comment_is_located_where_it_opens() {
    assert_eq!((ET::TrailingBlockComment, 1, 1), first_error(b"/* unfinished"));
    assert_eq!((ET::TrailingBlockComment, 2, 3), first_error(b"+\n  /* a\n b *"));
    assert_eq!((ET::TrailingBlockComment, 1, 1), first_error(b"/*/"));
    assert_eq!((ET::TrailingBlockComment, 1, 3), first_error(b"x /* a\n"));
}

#[test]
fn block_comment_may_end_the_text() {
    assert_eq!(vec![TT::Eof], kinds(b"/* c */"));
    assert_eq!(vec![TT::Eof], kinds(b"/**/"));
    assert_eq!(vec![TT::Plus, TT::Eof], kinds(b"+ /* a\nb */"));
}

#[test]
fn words_and_keywords() {
    assert_eq!(vec![TT::Id, TT::Semi, TT::Eof], kinds(b"breaker"));
    assert_eq!("breaker", first_lexeme(b"breaker"));
    assert_eq!(vec![TT::Break, TT::Semi, TT::Eof], kinds(b"break;"));
    assert_eq!(vec![TT::Id, TT::Semi, TT::Eof], kinds(b"Break"));
    assert_eq!(vec![TT::Id, TT::Semi, TT::Eof], kinds(b"_x"));
    assert_eq!(vec![TT::Blank, TT::Plus, TT::Blank, TT::Semi, TT::Eof], kinds(b"_+_"));
    assert_eq!(vec![TT::Id, TT::Semi, TT::Eof], kinds(b"if0"));
    assert_eq!(vec![TT::If, TT::Id, TT::Semi, TT::Eof], kinds(b"if x"));
    let toks = scan_all(b"package");
    assert_eq!(None, toks[0].lexeme);
    let toks = scan_all(b"_");
    assert_eq!(None, toks[0].lexeme);
    let toks = scan_all(b";");
    assert_eq!(None, toks[0].lexeme);
}

#[test]
fn interpreted_string_content() {
    assert_eq!("", first_lexeme(b"\"\""));
    assert_eq!("hello", first_lexeme(b"\"hello\""));
    assert_eq!("a\nb", first_lexeme(b"\"a\\nb\""));
    assert_eq!(
        " \x07 \x08 \x0c \n \r \t \x0b \\ \" ",
        first_lexeme(b"\" \\a \\b \\f \\n \\r \\t \\v \\\\ \\\" \"")
    );
    assert_eq!("it's", first_lexeme(b"\"it's\""));
    assert_eq!("\u{e9}", first_lexeme(b"\"\xe9\""));
    assert_eq!((ET::TrailingString, 1, 3), first_error(b"+ \"abc"));
    assert_eq!((ET::InvalidEscape('p'), 1, 3), first_error(b"\"\\p\""));
    assert_eq!((ET::InvalidEscape('\''), 1, 3), first_error(b"\"\\'\""));
    assert_eq!((ET::InvalidEscape('\0'), 1, 3), first_error(b"\"\\"));
    assert_eq!((ET::NewlineInString, 1, 4), first_error(b" \" \n \" "));
}

#[test]
fn raw_string_content() {
    assert_eq!("", first_lexeme(b"``"));
    assert_eq!("hello\nworld", first_lexeme(b"`hello\nworld`"));
    assert_eq!("ab", first_lexeme(b"`a\\rb`"));
    assert_eq!("a\\nb", first_lexeme(b"`a\\nb`"));
    assert_eq!("a\rb", first_lexeme(b"`a\rb`"));
    assert_eq!("\"", first_lexeme(b"`\"`"));
    assert_eq!((ET::TrailingString, 1, 1), first_error(b"`hello"));
    assert_eq!((ET::TrailingString, 1, 1), first_error(b"`\\r"));
}

#[test]
fn rune_content() {
    assert_eq!("a", first_lexeme(b"'a'"));
    assert_eq!("\n", first_lexeme(b"'\\n'"));
    assert_eq!("'", first_lexeme(b"'\\''"));
    assert_eq!("\"", first_lexeme(b"'\"'"));
    assert_eq!("\\", first_lexeme(b"'\\\\'"));
    assert_eq!("\x07", first_lexeme(b"'\\a'"));
    assert_eq!((ET::EmptyRune, 1, 1), first_error(b"''"));
    assert_eq!((ET::NewlineInRune, 1, 2), first_error(b"'\n'"));
    assert_eq!((ET::TrailingRune, 1, 1), first_error(b"'"));
    assert_eq!((ET::TrailingRune, 1, 3), first_error(b"+ 'xx'"));
    assert_eq!((ET::InvalidEscape('"'), 1, 3), first_error(b"'\\\"'"));
    assert_eq!((ET::InvalidEscape('\0'), 1, 3), first_error(b"'\\"));
}

#[test]
fn unrecognized_characters() {
    assert_eq!((ET::UnrecognizedCharacter('#'), 1, 1), first_error(b"#"));
    assert_eq!((ET::UnrecognizedCharacter('\u{80}'), 1, 3), first_error(b"x \x80"));
    assert_eq!((ET::UnrecognizedCharacter('\0'), 1, 1), first_error(b"\0"));
    assert_eq!((ET::UnrecognizedCharacter('\r'), 1, 2), first_error(b"x\r\n"));
    assert_eq!((ET::UnrecognizedCharacter('\\'), 2, 1), first_error(b"+\n\\"));
}

#[test]
fn all_tokens_ends_with_eof_or_fails() {
    let toks = scan_all(b"");
    assert_eq!(1, toks.len());
    assert!(toks[0].is_eof());
    let toks = scan_all(b"package main\nvar x int\n");
    let seen: Vec<TT> = toks.iter().map(|t| t.ty).collect();
    assert_eq!(
        vec![TT::Package, TT::Id, TT::Semi, TT::Var, TT::Id, TT::Id, TT::Semi, TT::Eof],
        seen
    );
    assert!(!toks[0].is_eof());
    assert!(toks[7].is_eof());
    let mut scanner = Scanner::new("f.go".to_string(), b"x = 08".to_vec());
    match scanner.all_tokens() {
        Ok(_) => panic!("an error was expected"),
        Err(e) => {
            assert_eq!(ET::MalformedOctLiteral, e.ty);
            assert_eq!((1, 5), (e.loc.line, e.loc.col));
        }
    }
}

#[test]
fn last_token_is_kept_after_an_error() {
    let mut scanner = Scanner::new("f.go".to_string(), b"+ #".to_vec());
    assert!(scanner.next().is_ok());
    assert_eq!(TT::Plus, scanner.last_tok());
    assert!(scanner.next().is_err());
    assert_eq!(TT::Plus, scanner.last_tok());
}
