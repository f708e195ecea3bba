use gore::error::Error;
use gore::error::ErrorType as ET;
use gore::grammar::Context;
use gore::loc::Loc;
use gore::parser::Parser;
use gore::scanner::Scanner;
use gore::token::Token;
use gore::token::TokenType as TT;
use gore::untyped_ast::{Ast, ExprKind, StmtKind, TopLevelDecl, Ty};

fn tokens_of(src: &[u8]) -> Vec<Token> {
    let mut scanner = Scanner::new("f.go".to_string(), src.to_vec());
    match scanner.all_tokens() {
        Ok(tokens) => tokens,
        Err(e) => panic!("unexpected error {:?}", e),
    }
}

fn parse_source(src: &[u8]) -> Result<Ast, Error> {
    let mut parser = Parser::new(tokens_of(src));
    parser.parse()
}

fn parse_ok(src: &[u8]) -> Ast {
    match parse_source(src) {
        Ok(ast) => ast,
        Err(e) => panic!("unexpected error {:?}", e),
    }
}

fn parse_err(src: &[u8]) -> (ET, usize, usize) {
    match parse_source(src) {
        Ok(ast) => panic!("unexpected tree {:?}", ast),
        Err(e) => (e.ty, e.loc.line, e.loc.col),
    }
}

fn name_of(ty: &Ty) -> &str {
    match ty {
        Ty::Name(name) => name.as_str(),
        other => panic!("not a named type: {:?}", other),
    }
}

#[test]
fn package_clause_alone() {
    let ast = parse_ok(b"package main");
    assert_eq!("main", ast.package_name);
    assert!(ast.declarations.is_empty());
    assert_eq!(("f.go", 1, 1), (ast.loc.filename.as_str(), ast.loc.line, ast.loc.col));
    let ast = parse_ok(b"\n\n  package p\n");
    assert_eq!("p", ast.package_name);
    assert_eq!((3, 3), (ast.loc.line, ast.loc.col));
}

#[test]
fn package_clause_errors() {
    assert_eq!((ET::MissingPackageDeclaration, 1, 1), parse_err(b""));
    assert_eq!((ET::MissingPackageDeclaration, 1, 1), parse_err(b"main"));
    assert_eq!((ET::MissingPackageDeclaration, 2, 1), parse_err(b"// c\nvar x int"));
    assert_eq!((ET::MissingPackageName, 1, 8), parse_err(b"package"));
    assert_eq!((ET::MissingPackageName, 1, 9), parse_err(b"package 42"));
    assert_eq!((ET::UnexpectedToken(TT::Id, vec![TT::Semi]), 1, 14), parse_err(b"package main x"));
    assert_eq!((ET::UnexpectedToken(TT::RParen, vec![TT::Eof]), 2, 1), parse_err(b"package main\n)"));
}

#[test]
fn var_with_type() {
    let ast = parse_ok(b"package main\nvar x int");
    assert_eq!(1, ast.declarations.len());
    match &ast.declarations[0] {
        TopLevelDecl::VarDecl(d) => {
            assert_eq!("x", d.name);
            assert_eq!("int", name_of(d.ty.as_ref().unwrap()));
            assert!(d.init.is_none());
            assert_eq!((2, 1), (d.loc.line, d.loc.col));
        }
        other => panic!("not a variable: {:?}", other),
    }
}

#[test]
fn var_with_initial_value() {
    let ast = parse_ok(b"package main\nvar x = y");
    assert_eq!(1, ast.declarations.len());
    match &ast.declarations[0] {
        TopLevelDecl::VarDecl(d) => {
            assert_eq!("x", d.name);
            assert!(d.ty.is_none());
            let init = d.init.as_ref().unwrap();
            match &*init.expr_kind {
                ExprKind::Id(name) => assert_eq!("y", name),
                other => panic!("not a name: {:?}", other),
            }
            assert_eq!((2, 9), (init.loc.line, init.loc.col));
        }
        other => panic!("not a variable: {:?}", other),
    }
}

#[test]
fn var_names_pair_with_values_in_order() {
    let ast = parse_ok(b"package main\nvar x, y, z int = 1, b, 3");
    assert_eq!(3, ast.declarations.len());
    let mut seen = Vec::new();
    for decl in ast.declarations.iter() {
        match decl {
            TopLevelDecl::VarDecl(d) => {
                assert_eq!("int", name_of(d.ty.as_ref().unwrap()));
                assert_eq!((2, 1), (d.loc.line, d.loc.col));
                let value = match &*d.init.as_ref().unwrap().expr_kind {
                    ExprKind::Int(n) => format!("{}", n),
                    ExprKind::Id(name) => name.clone(),
                    other => panic!("unexpected value {:?}", other),
                };
                seen.push((d.name.clone(), value));
            }
            other => panic!("not a variable: {:?}", other),
        }
    }
    assert_eq!(
        vec![
            ("x".to_string(), "1".to_string()),
            ("y".to_string(), "b".to_string()),
            ("z".to_string(), "3".to_string()),
        ],
        seen
    );
}

#[test]
fn var_group() {
    let ast = parse_ok(b"package main\nvar (\n  x, y int\n  z = 7\n)\n");
    let mut seen = Vec::new();
    for decl in ast.declarations.iter() {
        match decl {
            TopLevelDecl::VarDecl(d) => {
                assert!(d.ty.is_some() || d.init.is_some());
                seen.push((d.name.clone(), d.ty.is_some(), d.init.is_some()));
            }
            other => panic!("not a variable: {:?}", other),
        }
    }
    assert_eq!(
        vec![
            ("x".to_string(), true, false),
            ("y".to_string(), true, false),
            ("z".to_string(), false, true),
        ],
        seen
    );
}

#[test]
fn var_errors() {
    assert_eq!((ET::VarExprLengthMismatch, 2, 1), parse_err(b"package main\nvar x, y = a"));
    assert_eq!((ET::VarExprLengthMismatch, 2, 1), parse_err(b"package main\nvar x = a, b"));
    assert_eq!((ET::VarExprLengthMismatch, 2, 1), parse_err(b"package main\nvar x, y int = a"));
    assert_eq!((ET::InvalidVarDecl, 2, 1), parse_err(b"package main\nvar x"));
    assert_eq!((ET::InvalidVarDecl, 2, 1), parse_err(b"package main\nvar ()"));
    assert_eq!((ET::InvalidVarDecl, 2, 1), parse_err(b"package main\nvar (42)"));
    assert_eq!((ET::InvalidVarDecl, 2, 4), parse_err(b"package main\nvar"));
    assert_eq!((ET::InvalidVarDecl, 2, 5), parse_err(b"package main\nvar 42"));
    assert_eq!((ET::InvalidVarDecl, 2, 1), parse_err(b"package main\nvar (x int; y;)"));
    assert_eq!((ET::ExpectedExpression, 2, 9), parse_err(b"package main\nvar x = ;"));
    assert_eq!((ET::ExpectedExpression, 2, 9), parse_err(b"package main\nvar x = 0x10"));
    assert_eq!(
        (ET::UnexpectedToken(TT::Struct, vec![TT::Id, TT::LBracket]), 2, 7),
        parse_err(b"package main\nvar x struct")
    );
    assert_eq!(
        (ET::UnexpectedToken(TT::RParen, vec![TT::Semi]), 2, 11),
        parse_err(b"package main\nvar (x int)")
    );
    assert_eq!(
        (ET::UnexpectedToken(TT::Int, vec![TT::RParen]), 2, 13),
        parse_err(b"package main\nvar (x int; 42)")
    );
    assert_eq!(
        (ET::UnexpectedToken(TT::Comma, vec![TT::Semi]), 2, 10),
        parse_err(b"package main\nvar x int, y int")
    );
}

#[test]
fn integer_values() {
    let ast = parse_ok(b"package main\nvar x = 9223372036854775807");
    match &ast.declarations[0] {
        TopLevelDecl::VarDecl(d) => match &*d.init.as_ref().unwrap().expr_kind {
            ExprKind::Int(n) => assert_eq!(9223372036854775807i64, *n),
            other => panic!("not an integer: {:?}", other),
        },
        other => panic!("not a variable: {:?}", other),
    }
    assert_eq!((ET::MissingLexeme, 2, 9), parse_err(b"package main\nvar x = 9223372036854775808"));
}

#[test]
fn type_declarations() {
    let ast = parse_ok(b"package main\ntype t [3][]int\ntype (\n a b\n c [0x10]d\n)");
    assert_eq!(3, ast.declarations.len());
    match &ast.declarations[0] {
        TopLevelDecl::TypeDecl(d) => {
            assert_eq!("t", d.name);
            assert_eq!((2, 6), (d.loc.line, d.loc.col));
            match &d.ty {
                Ty::Array(3, elem) => match &**elem {
                    Ty::Slice(inner) => assert_eq!("int", name_of(inner)),
                    other => panic!("not a slice: {:?}", other),
                },
                other => panic!("not an array of 3: {:?}", other),
            }
        }
        other => panic!("not a type: {:?}", other),
    }
    match &ast.declarations[1] {
        TopLevelDecl::TypeDecl(d) => {
            assert_eq!("a", d.name);
            assert_eq!("b", name_of(&d.ty));
            assert_eq!((4, 2), (d.loc.line, d.loc.col));
        }
        other => panic!("not a type: {:?}", other),
    }
    match &ast.declarations[2] {
        TopLevelDecl::TypeDecl(d) => {
            assert_eq!("c", d.name);
            match &d.ty {
                Ty::Array(16, elem) => assert_eq!("d", name_of(elem)),
                other => panic!("not an array of 16: {:?}", other),
            }
        }
        other => panic!("not a type: {:?}", other),
    }
}

#[test]
fn array_sizes_are_read_in_the_base_of_the_literal() {
    let size_of = |src: &[u8]| -> usize {
        let ast = parse_ok(src);
        match &ast.declarations[0] {
            TopLevelDecl::TypeDecl(d) => match &d.ty {
                Ty::Array(n, _) => *n,
                other => panic!("not an array: {:?}", other),
            },
            other => panic!("not a type: {:?}", other),
        }
    };
    assert_eq!(10, size_of(b"package main\ntype t [10]int"));
    assert_eq!(16, size_of(b"package main\ntype t [0x10]int"));
    assert_eq!(31, size_of(b"package main\ntype t [0x1f]int"));
    assert_eq!(31, size_of(b"package main\ntype t [0X1F]int"));
    assert_eq!(0, size_of(b"package main\ntype t [0x0]int"));
    assert_eq!(0xdead_beef, size_of(b"package main\ntype t [0xDeadBeef]int"));
    assert_eq!(255, size_of(b"package main\ntype t [0x000ff]int"));
}

#[test]
fn type_errors() {
    assert_eq!((ET::InvalidTypeDecl, 2, 1), parse_err(b"package main\ntype"));
    assert_eq!((ET::InvalidTypeDecl, 2, 1), parse_err(b"package main\ntype ()"));
    assert_eq!((ET::InvalidTypeDecl, 2, 1), parse_err(b"package main\ntype (42)"));
    assert_eq!((ET::InvalidTypeDecl, 2, 1), parse_err(b"package main\ntype 42"));
    assert_eq!((ET::InvalidTypeDecl, 2, 10), parse_err(b"package main\ntype real"));
    assert_eq!((ET::InvalidTypeDecl, 2, 10), parse_err(b"package main\ntype (num)"));
    assert_eq!((ET::InvalidTypeDecl, 2, 9), parse_err(b"package main\ntype t [x]int"));
    assert_eq!(
        (ET::InvalidTypeDecl, 2, 9),
        parse_err(b"package main\ntype t [0x10000000000000000]int")
    );
    assert_eq!((ET::InvalidTypeDecl, 2, 9), parse_err(b"package main\ntype t [07]int"));
    assert_eq!(
        (ET::InvalidTypeDecl, 2, 9),
        parse_err(b"package main\ntype t [99999999999999999999999999]int")
    );
    assert_eq!(
        (ET::UnexpectedToken(TT::Int, vec![TT::RParen]), 2, 14),
        parse_err(b"package main\ntype (a int; 42)")
    );
    assert_eq!(
        (ET::UnexpectedToken(TT::RParen, vec![TT::Semi]), 2, 12),
        parse_err(b"package main\ntype (a int)")
    );
}

#[test]
fn function_declaration() {
    let ast = parse_ok(
        b"package main\nfunc f(x int, y, z []float64) [2]t {\n  print(x, 1)\n  println(y)\n}\n",
    );
    assert_eq!(1, ast.declarations.len());
    match &ast.declarations[0] {
        TopLevelDecl::FunDecl(f) => {
            assert_eq!("f", f.name);
            assert_eq!((2, 1), (f.loc.line, f.loc.col));
            let names: Vec<&str> = f.params.iter().map(|p| p.name.as_str()).collect();
            assert_eq!(vec!["x", "y", "z"], names);
            assert_eq!("int", name_of(&f.params[0].ty));
            for p in f.params[1..].iter() {
                match &*p.ty {
                    Ty::Slice(elem) => assert_eq!("float64", name_of(elem)),
                    other => panic!("not a slice: {:?}", other),
                }
            }
            match &f.return_ty {
                Ty::Array(2, elem) => assert_eq!("t", name_of(elem)),
                other => panic!("not an array of 2: {:?}", other),
            }
            assert_eq!(2, f.body.len());
            match &*f.body[0].kind {
                StmtKind::Print { exprs, newline } => {
                    assert!(!*newline);
                    assert_eq!(2, exprs.len());
                    match &*exprs[0].expr_kind {
                        ExprKind::Id(name) => assert_eq!("x", name),
                        other => panic!("not a name: {:?}", other),
                    }
                    match &*exprs[1].expr_kind {
                        ExprKind::Int(n) => assert_eq!(1, *n),
                        other => panic!("not an integer: {:?}", other),
                    }
                }
                other => panic!("not a print statement: {:?}", other),
            }
            assert_eq!((3, 3), (f.body[0].loc.line, f.body[0].loc.col));
            match &*f.body[1].kind {
                StmtKind::Print { exprs, newline } => {
                    assert!(*newline);
                    assert_eq!(1, exprs.len());
                }
                other => panic!("not a print statement: {:?}", other),
            }
        }
        other => panic!("not a function: {:?}", other),
    }
}

#[test]
fn function_without_result() {
    let ast = parse_ok(b"package main\nfunc f() { }\nfunc g() { }");
    assert_eq!(2, ast.declarations.len());
    for decl in ast.declarations.iter() {
        match decl {
            TopLevelDecl::FunDecl(f) => {
                assert!(f.params.is_empty());
                assert!(f.body.is_empty());
                assert!(matches!(f.return_ty, Ty::Void));
            }
            other => panic!("not a function: {:?}", other),
        }
    }
}

#[test]
fn function_errors() {
    assert_eq!((ET::ExpectedParamList, 2, 8), parse_err(b"package main\nfunc f { }"));
    assert_eq!(
        (ET::UnexpectedToken(TT::LParen, vec![TT::Id]), 2, 6),
        parse_err(b"package main\nfunc () { }")
    );
    assert_eq!(
        (ET::UnexpectedToken(TT::Plus, vec![TT::Id, TT::LBracket]), 2, 10),
        parse_err(b"package main\nfunc f() + { }")
    );
    assert_eq!(
        (ET::UnexpectedToken(TT::Id, vec![TT::Comma]), 2, 14),
        parse_err(b"package main\nfunc f(x int y int) { }")
    );
    assert_eq!(
        (ET::UnexpectedToken(TT::RParen, vec![TT::Id, TT::LBracket]), 2, 9),
        parse_err(b"package main\nfunc f(x) { }")
    );
    assert_eq!((ET::InvalidBreak, 2, 12), parse_err(b"package main\nfunc f() { break }"));
    assert_eq!(
        (ET::InvalidBreak, 3, 3),
        parse_err(b"package main\nfunc f() {\n  break\n}")
    );
    assert_eq!(
        (ET::InvalidContinue, 4, 3),
        parse_err(b"package main\nfunc f() {\n  print(x)\n  continue\n}")
    );
    assert_eq!(
        (ET::UnexpectedToken(TT::Return, vec![TT::RBrace]), 2, 12),
        parse_err(b"package main\nfunc f() { return }")
    );
    assert_eq!(
        (ET::UnexpectedToken(TT::RBrace, vec![TT::Semi]), 2, 21),
        parse_err(b"package main\nfunc f() { print(x) }")
    );
    assert_eq!(
        (ET::UnexpectedToken(TT::RParen, vec![TT::Id, TT::LBracket]), 2, 10),
        parse_err(b"package main\nfunc f() )")
    );
    assert_eq!(
        (ET::UnexpectedToken(TT::RParen, vec![TT::LBrace]), 2, 14),
        parse_err(b"package main\nfunc f() int )")
    );
    assert_eq!(
        (ET::UnexpectedToken(TT::Var, vec![TT::Semi]), 2, 14),
        parse_err(b"package main\nfunc f() { } var x int")
    );
    assert_eq!((ET::ExpectedExpression, 2, 18), parse_err(b"package main\nfunc f() { print() }"));
    assert_eq!(
        (ET::UnexpectedToken(TT::Id, vec![TT::LParen]), 2, 18),
        parse_err(b"package main\nfunc f() { print x }")
    );
    assert_eq!(
        (ET::UnexpectedToken(TT::Eof, vec![TT::Id]), 2, 8),
        parse_err(b"package main\nfunc f(")
    );
}

fn token(ty: TT, col: usize, lexeme: Option<&str>) -> Token {
    Token::new(ty, Loc::new("t", 1, col), lexeme.map(|s| s.to_string()))
}

#[test]
fn names_need_a_lexeme() {
    let toks = vec![
        token(TT::Package, 1, None),
        token(TT::Id, 2, None),
        token(TT::Semi, 3, None),
        token(TT::Eof, 4, None),
    ];
    let mut parser = Parser::new(toks);
    match parser.parse() {
        Ok(ast) => panic!("unexpected tree {:?}", ast),
        Err(e) => {
            assert_eq!(ET::MissingLexeme, e.ty);
            assert_eq!(("t", 1, 2), (e.loc.filename.as_str(), e.loc.line, e.loc.col));
        }
    }
    let toks = vec![
        token(TT::Package, 1, None),
        token(TT::Id, 2, Some("p")),
        token(TT::Semi, 3, None),
        token(TT::Var, 4, None),
        token(TT::Id, 5, Some("x")),
        token(TT::Assign, 6, None),
        token(TT::Int, 7, Some("+12")),
        token(TT::Semi, 8, None),
        token(TT::Var, 9, None),
        token(TT::Id, 10, Some("y")),
        token(TT::Assign, 11, None),
        token(TT::Int, 12, Some("1_000")),
        token(TT::Semi, 13, None),
        token(TT::Eof, 14, None),
    ];
    let mut parser = Parser::new(toks);
    match parser.parse() {
        Ok(ast) => panic!("unexpected tree {:?}", ast),
        Err(e) => {
            assert_eq!(ET::MissingLexeme, e.ty);
            assert_eq!(12, e.loc.col);
        }
    }
}

#[test]
fn past_the_end_the_last_token_is_seen() {
    let mut parser = Parser::new(vec![token(TT::Package, 7, None)]);
    match parser.parse() {
        Ok(ast) => panic!("unexpected tree {:?}", ast),
        Err(e) => {
            assert_eq!(ET::MissingPackageName, e.ty);
            assert_eq!(7, e.loc.col);
        }
    }
    let toks = vec![token(TT::Package, 1, None), token(TT::Id, 2, Some("p")), token(TT::Semi, 3, None)];
    let mut parser = Parser::new(toks);
    match parser.parse() {
        Ok(ast) => panic!("unexpected tree {:?}", ast),
        Err(e) => {
            assert_eq!(ET::UnexpectedToken(TT::Semi, vec![TT::Eof]), e.ty);
            assert_eq!(3, e.loc.col);
        }
    }
}

fn statement(src: &[u8], ctx: Context) -> Result<StmtKind, ET> {
    let mut parser = Parser::new(tokens_of(src));
    match parser.parse_stmt(ctx) {
        Ok(stmt) => Ok(*stmt.kind),
        Err(e) => Err(e.ty),
    }
}

#[test]
fn break_and_continue_need_their_context() {
    let outside = Context { in_loop: false, in_switch: false };
    let in_loop = Context { in_loop: true, in_switch: false };
    let in_switch = Context { in_loop: false, in_switch: true };
    let in_both = Context { in_loop: true, in_switch: true };
    assert_eq!(Some(ET::InvalidBreak), statement(b"break", outside).err());
    assert!(matches!(statement(b"break", in_loop), Ok(StmtKind::Break)));
    assert!(matches!(statement(b"break", in_switch), Ok(StmtKind::Break)));
    assert!(matches!(statement(b"break", in_both), Ok(StmtKind::Break)));
    assert_eq!(Some(ET::InvalidContinue), statement(b"continue", outside).err());
    assert_eq!(Some(ET::InvalidContinue), statement(b"continue", in_switch).err());
    assert!(matches!(statement(b"continue", in_loop), Ok(StmtKind::Continue)));
    assert!(matches!(statement(b"continue", in_both), Ok(StmtKind::Continue)));
    assert!(matches!(statement(b"println(x)", outside), Ok(StmtKind::Print { newline: true, .. })));
    assert!(matches!(statement(b"print(x)", in_loop), Ok(StmtKind::Print { newline: false, .. })));
    assert_eq!(
        Some(ET::Internal("no statement starts here".to_string())),
        statement(b"x = 1", in_loop).err()
    );
}

#[test]
fn whole_program() {
    let src = b"// A small program.
package shapes

/* Two
   dimensions. */
type (
    point [2]int
    path []point
)

var origin point
var (
    width, height = 640, 480
    title string = name
)

func show(p point, scale int) {
    println(p, scale) // to the terminal
    print(origin)
}

func area(w, h int) int {
}
";
    let ast = parse_ok(src);
    assert_eq!("shapes", ast.package_name);
    assert_eq!((2, 1), (ast.loc.line, ast.loc.col));
    let mut seen = Vec::new();
    for decl in ast.declarations.iter() {
        seen.push(match decl {
            TopLevelDecl::TypeDecl(d) => format!("type {} at {}", d.name, d.loc.line),
            TopLevelDecl::VarDecl(d) => format!("var {} at {}", d.name, d.loc.line),
            TopLevelDecl::FunDecl(d) => {
                format!("func {} at {} with {} and {}", d.name, d.loc.line, d.params.len(), d.body.len())
            }
        });
    }
    assert_eq!(
        vec![
            "type point at 7",
            "type path at 8",
            "var origin at 11",
            "var width at 12",
            "var height at 12",
            "var title at 12",
            "func show at 17 with 2 and 2",
            "func area at 22 with 2 and 0",
        ],
        seen
    );
}

#[test]
fn parser_stays_on_the_token_it_refuses() {
    let outside = Context { in_loop: false, in_switch: false };
    let in_loop = Context { in_loop: true, in_switch: false };

    let mut parser = Parser::new(tokens_of(b"break"));
    assert_eq!(Some(ET::InvalidBreak), parser.parse_stmt(outside).err().map(|e| e.ty));
    assert_eq!(Some(ET::InvalidBreak), parser.parse_stmt(outside).err().map(|e| e.ty));
    assert!(matches!(parser.parse_stmt(in_loop).map(|s| *s.kind), Ok(StmtKind::Break)));

    let mut parser = Parser::new(tokens_of(b"continue"));
    assert_eq!(Some(ET::InvalidContinue), parser.parse_stmt(outside).err().map(|e| e.ty));
    assert!(matches!(parser.parse_stmt(in_loop).map(|s| *s.kind), Ok(StmtKind::Continue)));

    let mut parser = Parser::new(tokens_of(b"print(x)"));
    match parser.parse_toplevel_decl() {
        Ok(decls) => panic!("unexpected declarations {:?}", decls),
        Err(e) => {
            assert_eq!(ET::ExpectedDeclaration, e.ty);
            assert_eq!((1, 1), (e.loc.line, e.loc.col));
        }
    }
    assert!(matches!(
        parser.parse_stmt(outside).map(|s| *s.kind),
        Ok(StmtKind::Print { newline: false, .. })
    ));

    let mut parser = Parser::new(tokens_of(b"x print(y)"));
    assert!(matches!(parser.parse_stmt(outside).err().map(|e| e.ty), Some(ET::Internal(_))));
    assert!(matches!(parser.parse_stmt(outside).err().map(|e| e.ty), Some(ET::Internal(_))));
}

#[test]
fn declaration_expected() {
    let mut parser = Parser::new(tokens_of(b"x"));
    match parser.parse_toplevel_decl() {
        Ok(decls) => panic!("unexpected declarations {:?}", decls),
        Err(e) => {
            assert_eq!(ET::ExpectedDeclaration, e.ty);
            assert_eq!((1, 1), (e.loc.line, e.loc.col));
        }
    }
    let mut parser = Parser::new(tokens_of(b"var a, b int;"));
    match parser.parse_toplevel_decl() {
        Ok(decls) => assert_eq!(2, decls.len()),
        Err(e) => panic!("unexpected error {:?}", e),
    }
}
