use gore::error::ErrorType as ET;
use gore::parser::Parser;
use gore::scanner::Scanner;

fn parse_error(src: &[u8]) -> Option<ET> {
    let mut scanner = Scanner::new("<test>".to_string(), src.to_vec());
    let toks = match scanner.all_tokens() {
        Ok(tokens) => tokens,
        Err(gore_err) => {
            return Some(gore_err.ty);
        }
    };
    let mut parser = Parser::new(toks);
    match parser.parse() {
        Err(gore_err) => Some(gore_err.ty),
        Ok(_ast) => None,
    }
}

fn parse_decl(decl: &[u8]) -> Option<ET> {
    let mut src = b"package main\n".to_vec();
    src.extend_from_slice(decl);
    parse_error(&src[..])
}

#[test]
fn parse_type_decl_type_decl_ok() {
    assert_eq!(None, parse_decl(b"type num int"));
    assert_eq!(None, parse_decl(b"type reals []float64"));
    assert_eq!(None, parse_decl(b"type (re float64; im float64;)"));
    assert_eq!(None, parse_decl(b"type (
re float64
im float64
)"));
}

#[test]
fn parse_type_decl_type_decl_error() {
    assert_eq!(Some(ET::InvalidTypeDecl), parse_decl(b"type"));
    assert_eq!(Some(ET::InvalidTypeDecl), parse_decl(b"type real"));
    assert_eq!(Some(ET::InvalidTypeDecl), parse_decl(b"type ()"));
    assert_eq!(Some(ET::InvalidTypeDecl), parse_decl(b"type (num)"));
    assert_eq!(Some(ET::InvalidTypeDecl), parse_decl(b"type (num int; real)"));
    assert_eq!(Some(ET::InvalidTypeDecl), parse_decl(b"type (42)"));
}
