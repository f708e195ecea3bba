use gore::error::ErrorType as ET;
use gore::parser::Parser;
use gore::scanner::Scanner;

fn parse_error(src: &[u8]) -> Result<(), ET> {
    let mut scanner = Scanner::new("<test>".to_string(), src.to_vec());
    let toks = match scanner.all_tokens() {
        Ok(tokens) => tokens,
        Err(gore_err) => {
            return Err(gore_err.ty);
        }
    };
    let mut parser = Parser::new(toks);
    match parser.parse() {
        Err(gore_err) => Err(gore_err.ty),
        Ok(_ast) => Ok(()),
    }
}

#[test]
fn parser_package_test_package() {
    assert!(parse_error(b"").is_err());
    assert!(parse_error(b"main").is_err());
    assert!(parse_error(b"package").is_err());
    assert!(parse_error(b"package main").is_ok());
}
