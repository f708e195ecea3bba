use gore::error::ErrorType as ET;
use gore::parser::Parser;
use gore::scanner::Scanner;

fn parse_error(src: &[u8]) -> Result<(), ET> {
    let mut scanner = Scanner::new("<test>".to_string(), src.to_vec());
    let toks = match scanner.all_tokens() {
        Ok(tokens) => tokens,
        Err(gore_err) => {
            return Err(gore_err.ty);
        }
    };
    let mut parser = Parser::new(toks);
    match parser.parse() {
        Err(gore_err) => Err(gore_err.ty),
        Ok(_ast) => Ok(()),
    }
}

fn parse_decl(decl: &[u8]) -> Result<(), ET> {
    let mut src = b"package main\n".to_vec();
    src.extend_from_slice(decl);
    parse_error(&src[..])
}

#[test]
fn parser_type_decl_type_decl_ok() {
    assert!(parse_decl(b"type num int").is_ok());
    assert!(parse_decl(b"type reals []float64").is_ok());
    assert!(parse_decl(b"type (re float64; im float64;)").is_ok());
    assert!(parse_decl(b"type (
re float64
im float64
)").is_ok());
}

#[test]
fn parser_type_decl_type_decl_error() {
    assert!(parse_decl(b"type").is_err());
    assert!(parse_decl(b"type real").is_err());
    assert!(parse_decl(b"type ()").is_err());
    assert!(parse_decl(b"type (num)").is_err());
    assert!(parse_decl(b"type (num int; real)").is_err());
    assert!(parse_decl(b"type (42)").is_err());
}
