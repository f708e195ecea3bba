use gore::error::ErrorType as ET;
use gore::parser::Parser;
use gore::scanner::Scanner;

fn parse_error(src: &[u8]) -> Option<ET> {
    let mut scanner = Scanner::new("<test>".to_string(), src.to_vec());
    let toks = match scanner.all_tokens() {
        Ok(tokens) => tokens,
        Err(gore_err) => {
            return Some(gore_err.ty);
        }
    };
    let mut parser = Parser::new(toks);
    match parser.parse() {
        Err(gore_err) => Some(gore_err.ty),
        Ok(_ast) => None,
    }
}

#[test]
fn parser_tests_test_package() {
    assert_eq!(Some(ET::MissingPackageDeclaration), parse_error(b""));
    assert_eq!(Some(ET::MissingPackageDeclaration), parse_error(b"main"));
    assert_eq!(Some(ET::MissingPackageName), parse_error(b"package"));
    assert_eq!(None, parse_error(b"package main"));
}
