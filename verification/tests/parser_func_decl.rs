use gore::error::ErrorType as ET;
use gore::parser::Parser;
use gore::scanner::Scanner;

fn parse_error(src: &[u8]) -> Result<(), ET> {
    let mut scanner = Scanner::new("<test>".to_string(), src.to_vec());
    let toks = match scanner.all_tokens() {
        Ok(tokens) => tokens,
        Err(gore_err) => {
            return Err(gore_err.ty);
        }
    };
    let mut parser = Parser::new(toks);
    match parser.parse() {
        Err(gore_err) => Err(gore_err.ty),
        Ok(_ast) => Ok(()),
    }
}

fn parse_decl(decl: &[u8]) -> Result<(), ET> {
    let mut src = b"package main\n".to_vec();
    src.extend_from_slice(decl);
    parse_error(&src[..])
}

#[test]
fn return_type() {
    assert!(parse_decl(b"func f() { }").is_ok());
    assert!(parse_decl(b"func f() int { }").is_ok());
    assert!(parse_decl(b"func f() []string { }").is_ok());
    assert!(parse_decl(b"func f() [8][8]float { }").is_ok());
    assert!(parse_decl(b"func f() + { }").is_err());
}

#[test]
fn param_list() {
    assert!(parse_decl(b"func f(x int) { }").is_ok());
    assert!(parse_decl(b"func f(x, y int) { }").is_ok());
    assert!(parse_decl(b"func f(x int, y int) { }").is_ok());
    assert!(parse_decl(b"func f(x int, y, z int) { }").is_ok());
    assert!(parse_decl(b"func f(x int, y int, a, b float64) { }").is_ok());
}
