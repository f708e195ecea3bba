use gore::error::{err, Error, ErrorType};
use gore::loc::Loc;
use gore::numeral::{parse_i64, parse_usize, parse_usize_hex};
use gore::strings::str_eq;
use gore::token::{Token, TokenType};
use gore::untyped_ast::{
    Ast, BinOp, Expr, ExprKind, FunDecl, Param, Ty, TypeDecl, UnaryOp, VarDecl,
};

#[test]
fn usize_numerals() {
    assert_eq!(Some(0), parse_usize("0"));
    assert_eq!(Some(8), parse_usize("8"));
    assert_eq!(Some(12), parse_usize("00012"));
    assert_eq!(Some(5), parse_usize("+5"));
    assert_eq!(Some(usize::MAX), parse_usize(&format!("{}", usize::MAX)));
    assert_eq!(None, parse_usize(&format!("{}0", usize::MAX)));
    assert_eq!(None, parse_usize("18446744073709551616"));
    assert_eq!(None, parse_usize(""));
    assert_eq!(None, parse_usize("+"));
    assert_eq!(None, parse_usize("-"));
    assert_eq!(None, parse_usize("-0"));
    assert_eq!(None, parse_usize("-5"));
    assert_eq!(None, parse_usize("++5"));
    assert_eq!(None, parse_usize("5+"));
    assert_eq!(None, parse_usize(" 5"));
    assert_eq!(None, parse_usize("5 "));
    assert_eq!(None, parse_usize("1f"));
    assert_eq!(None, parse_usize("1_000"));
    assert_eq!(None, parse_usize("1.0"));
    assert_eq!(None, parse_usize("\u{663}"));
    assert_eq!(None, parse_usize("1\u{e9}"));
}

#[test]
fn i64_numerals() {
    assert_eq!(Some(0), parse_i64("0"));
    assert_eq!(Some(0), parse_i64("-0"));
    assert_eq!(Some(42), parse_i64("42"));
    assert_eq!(Some(42), parse_i64("+42"));
    assert_eq!(Some(-42), parse_i64("-42"));
    assert_eq!(Some(7), parse_i64("007"));
    assert_eq!(Some(i64::MAX), parse_i64("9223372036854775807"));
    assert_eq!(Some(i64::MIN), parse_i64("-9223372036854775808"));
    assert_eq!(Some(i64::MIN + 1), parse_i64("-9223372036854775807"));
    assert_eq!(None, parse_i64("9223372036854775808"));
    assert_eq!(None, parse_i64("+9223372036854775808"));
    assert_eq!(None, parse_i64("-9223372036854775809"));
    assert_eq!(None, parse_i64("99999999999999999999999999"));
    assert_eq!(None, parse_i64(""));
    assert_eq!(None, parse_i64("+"));
    assert_eq!(None, parse_i64("-"));
    assert_eq!(None, parse_i64("+-1"));
    assert_eq!(None, parse_i64("--1"));
    assert_eq!(None, parse_i64("1-"));
    assert_eq!(None, parse_i64("0x10"));
    assert_eq!(None, parse_i64("12a"));
    assert_eq!(None, parse_i64("\u{ff11}"));
}

#[test]
fn numerals_read_as_the_standard_library_reads_them() {
    let texts = [
        "", "0", "1", "9", "10", "0010", "+0", "-0", "+1", "-1", "+", "-", "++1", "+-1", "-+1",
        "1+", "1-", " 1", "1 ", "1 2", "a", "1a", "a1", "0x1", "1e3", "1.5", ".", "_1", "1_",
        "4294967295", "4294967296", "9223372036854775807", "9223372036854775808",
        "-9223372036854775808", "-9223372036854775809", "18446744073709551615",
        "18446744073709551616", "+18446744073709551615", "-18446744073709551615",
        "000000000000000000000000000000000000001", "340282366920938463463374607431768211456",
        "\u{661}", "1\u{0}", "\u{7f}1", "12\u{80}",
    ];
    for text in texts.iter() {
        assert_eq!(text.parse::<usize>().ok(), parse_usize(text), "as usize: {:?}", text);
        assert_eq!(text.parse::<i64>().ok(), parse_i64(text), "as i64: {:?}", text);
    }
}

#[test]
fn hexadecimal_numerals() {
    assert_eq!(Some(0), parse_usize_hex("0"));
    assert_eq!(Some(16), parse_usize_hex("10"));
    assert_eq!(Some(31), parse_usize_hex("1f"));
    assert_eq!(Some(31), parse_usize_hex("1F"));
    assert_eq!(Some(0xabcdef), parse_usize_hex("aBcDeF"));
    assert_eq!(Some(255), parse_usize_hex("000ff"));
    assert_eq!(Some(usize::MAX), parse_usize_hex(&format!("{:x}", usize::MAX)));
    assert_eq!(Some(usize::MAX), parse_usize_hex(&format!("{:X}", usize::MAX)));
    assert_eq!(None, parse_usize_hex(&format!("{:x}0", usize::MAX)));
    assert_eq!(None, parse_usize_hex(&format!("1{:x}", usize::MAX)));
    assert_eq!(None, parse_usize_hex(""));
    assert_eq!(None, parse_usize_hex("+1"));
    assert_eq!(None, parse_usize_hex("-1"));
    assert_eq!(None, parse_usize_hex("0x10"));
    assert_eq!(None, parse_usize_hex("1g"));
    assert_eq!(None, parse_usize_hex("g"));
    assert_eq!(None, parse_usize_hex(" 1"));
    assert_eq!(None, parse_usize_hex("1_0"));
    assert_eq!(None, parse_usize_hex("`"));
    assert_eq!(None, parse_usize_hex("@"));
    assert_eq!(None, parse_usize_hex("/"));
    assert_eq!(None, parse_usize_hex(":"));
    assert_eq!(None, parse_usize_hex("1\u{e9}"));
    let texts = ["0", "7", "a", "F", "10", "ff", "fFfF", "123456789abcdef", "0000", "deadBEEF"];
    for text in texts.iter() {
        assert_eq!(usize::from_str_radix(text, 16).ok(), parse_usize_hex(text), "{:?}", text);
    }
}

#[test]
fn strings_compare_by_their_characters() {
    assert!(str_eq("", ""));
    assert!(str_eq("break", "break"));
    assert!(!str_eq("break", "brea"));
    assert!(!str_eq("brea", "break"));
    assert!(!str_eq("break", "breaK"));
    assert!(!str_eq("", "_"));
    assert!(str_eq("\u{e9}t\u{e9}", "\u{e9}t\u{e9}"));
    assert!(!str_eq("\u{e9}", "\u{c3}\u{a9}"));
    assert!(!str_eq("e", "\u{e9}"));
}

#[test]
fn token_kinds_as_text() {
    assert_eq!("<eof>", TokenType::Eof.to_str());
    assert_eq!("<none>", TokenType::Start.to_str());
    assert_eq!("break", TokenType::Break.to_str());
    assert_eq!("println", TokenType::Println.to_str());
    assert_eq!("_", TokenType::Blank.to_str());
    assert_eq!("<int>", TokenType::Int.to_str());
    assert_eq!("<int oct>", TokenType::IntOct.to_str());
    assert_eq!("<int hex>", TokenType::IntHex.to_str());
    assert_eq!("<float>", TokenType::Float.to_str());
    assert_eq!("<string>", TokenType::String.to_str());
    assert_eq!("<rune>", TokenType::Rune.to_str());
    assert_eq!("<id>", TokenType::Id.to_str());
    assert_eq!("<<=", TokenType::LeftShiftEq.to_str());
    assert_eq!(">>=", TokenType::RightShiftEq.to_str());
    assert_eq!("&^", TokenType::BitClear.to_str());
    assert_eq!("^", TokenType::Bitnot.to_str());
    assert_eq!(":=", TokenType::ColonEq.to_str());
    assert_eq!(";", TokenType::Semi.to_str());
    assert_eq!("{", TokenType::LBrace.to_str());
}

#[test]
fn spelling_of_a_fixed_token_scans_as_that_token() {
    let kinds = [
        TokenType::Break, TokenType::Case, TokenType::Continue, TokenType::Default,
        TokenType::Else, TokenType::For, TokenType::Func, TokenType::If, TokenType::Package,
        TokenType::Return, TokenType::Struct, TokenType::Switch, TokenType::Type, TokenType::Var,
        TokenType::Append, TokenType::Print, TokenType::Println, TokenType::Blank,
        TokenType::Plus, TokenType::Minus, TokenType::Star, TokenType::Slash, TokenType::Percent,
        TokenType::PlusEq, TokenType::MinusEq, TokenType::StarEq, TokenType::SlashEq,
        TokenType::PercentEq, TokenType::Assign, TokenType::ColonEq, TokenType::Bitand,
        TokenType::Bitor, TokenType::Bitnot, TokenType::BitandEq, TokenType::BitorEq,
        TokenType::LeftShift, TokenType::RightShift, TokenType::BitClear, TokenType::LeftShiftEq,
        TokenType::RightShiftEq, TokenType::And, TokenType::Or, TokenType::Not, TokenType::Incr,
        TokenType::Decr, TokenType::Eq, TokenType::Ne, TokenType::Lt, TokenType::Le,
        TokenType::Gt, TokenType::Ge, TokenType::LParen, TokenType::RParen, TokenType::LBracket,
        TokenType::RBracket, TokenType::LBrace, TokenType::RBrace, TokenType::Comma,
        TokenType::Dot, TokenType::Semi, TokenType::Colon,
    ];
    for kind in kinds.iter() {
        let text = kind.to_str();
        let mut scanner = gore::scanner::Scanner::new("-".to_string(), text.as_bytes().to_vec());
        let tok = scanner.next().unwrap();
        assert_eq!(*kind, tok.ty);
        assert_eq!(None, tok.lexeme);
        assert_eq!((1, 1), (tok.loc.line, tok.loc.col));
    }
}

#[test]
fn error_kinds_as_text() {
    assert_eq!("internal compiler error", ErrorType::Internal("x".to_string()).to_str());
    assert_eq!("unrecognized character", ErrorType::UnrecognizedCharacter('#').to_str());
    assert_eq!("unfinished block comment", ErrorType::TrailingBlockComment.to_str());
    assert_eq!("malformed octal literal", ErrorType::MalformedOctLiteral.to_str());
    assert_eq!("malformed hexadecimal literal", ErrorType::MalformedHexLiteral.to_str());
    assert_eq!("unfinished string literal", ErrorType::TrailingString.to_str());
    assert_eq!("unfinished rune literal", ErrorType::TrailingRune.to_str());
    assert_eq!("invalid escape code", ErrorType::InvalidEscape('p').to_str());
    assert_eq!("newline in interpreted string literal", ErrorType::NewlineInString.to_str());
    assert_eq!("newline in rune literal", ErrorType::NewlineInRune.to_str());
    assert_eq!("empty rune literal", ErrorType::EmptyRune.to_str());
    assert_eq!("missing package declaration", ErrorType::MissingPackageDeclaration.to_str());
    assert_eq!("missing package name", ErrorType::MissingPackageName.to_str());
    assert_eq!("expected a declaration", ErrorType::ExpectedDeclaration.to_str());
    assert_eq!("expected an expression", ErrorType::ExpectedExpression.to_str());
    assert_eq!("invalid variable declaration", ErrorType::InvalidVarDecl.to_str());
    assert_eq!(
        "variables and expressions differ in number",
        ErrorType::VarExprLengthMismatch.to_str()
    );
    assert_eq!("invalid type declaration", ErrorType::InvalidTypeDecl.to_str());
    assert_eq!("expected a parameter list", ErrorType::ExpectedParamList.to_str());
    assert_eq!("token without a usable lexeme", ErrorType::MissingLexeme.to_str());
    assert_eq!(
        "unexpected token",
        ErrorType::UnexpectedToken(TokenType::Plus, vec![TokenType::Id]).to_str()
    );
    assert_eq!("break outside of a loop or a switch", ErrorType::InvalidBreak.to_str());
    assert_eq!("continue outside of a loop", ErrorType::InvalidContinue.to_str());
}

#[test]
fn locations_tokens_and_errors() {
    let loc = Loc::new("a.go", 3, 14);
    assert_eq!(("a.go", 3, 14), (loc.filename.as_str(), loc.line, loc.col));
    let copy = loc.clone();
    assert_eq!(("a.go", 3, 14), (copy.filename.as_str(), copy.line, copy.col));

    let tok = Token::new(TokenType::Id, loc.clone(), Some("x".to_string()));
    assert_eq!(TokenType::Id, tok.ty);
    assert_eq!(Some("x".to_string()), tok.lexeme);
    assert_eq!(14, tok.loc.col);
    assert!(!tok.is_eof());
    assert!(Token::new(TokenType::Eof, loc.clone(), None).is_eof());

    let e = Error::new(ErrorType::EmptyRune, loc.clone());
    assert_eq!(ErrorType::EmptyRune, e.ty);
    assert_eq!(3, e.loc.line);
    let r: Result<u8, Error> = err(ErrorType::InvalidBreak, loc);
    match r {
        Ok(_) => panic!("an error was expected"),
        Err(e) => {
            assert_eq!(ErrorType::InvalidBreak, e.ty);
            assert_eq!(("a.go", 3, 14), (e.loc.filename.as_str(), e.loc.line, e.loc.col));
        }
    }
}

#[test]
fn tree_nodes_hold_what_they_are_made_of() {
    let loc = Loc::new("a.go", 1, 1);
    let e = Expr::new(Box::new(ExprKind::Int(7)), loc.clone());
    assert!(matches!(*e.expr_kind, ExprKind::Int(7)));
    let v = VarDecl::new("x".to_string(), Some(Ty::Name("int".to_string())), Some(e), loc.clone());
    assert_eq!("x", v.name);
    assert!(v.ty.is_some() && v.init.is_some());
    let t = TypeDecl::new("t".to_string(), Ty::Slice(Box::new(Ty::Void)), loc.clone());
    assert_eq!("t", t.name);
    assert!(matches!(t.ty, Ty::Slice(_)));
    let p = Param::new("p".to_string(), Ty::Name("int".to_string()));
    assert_eq!("p", p.name);
    let f = FunDecl::new("f".to_string(), vec![p], Ty::Void, Vec::new(), loc.clone());
    assert_eq!(1, f.params.len());
    let ast = Ast::new("main".to_string(), Vec::new(), loc);
    assert_eq!("main", ast.package_name);
    assert!(ast.declarations.is_empty());
}

#[test]
fn types_are_copied_whole() {
    let ty = Ty::Func(
        vec![
            Ty::Array(4, Box::new(Ty::Name("int".to_string()))),
            Ty::Struct(vec![
                Param::new("a".to_string(), Ty::Slice(Box::new(Ty::Name("b".to_string())))),
                Param::new("c".to_string(), Ty::Void),
            ]),
        ],
        Box::new(Ty::Name("r".to_string())),
    );
    let copy = ty.clone();
    assert_eq!(format!("{:?}", ty), format!("{:?}", copy));
    let p = Param::new("p".to_string(), ty);
    assert_eq!(format!("{:?}", p), format!("{:?}", p.clone()));
}

#[test]
fn expressions_are_copied_whole() {
    let loc = Loc::new("a.go", 2, 5);
    let name = |s: &str| Expr::new(Box::new(ExprKind::Id(s.to_string())), loc.clone());
    let call = Expr::new(
        Box::new(ExprKind::Call {
            func: "f".to_string(),
            args: vec![
                name("x"),
                Expr::new(Box::new(ExprKind::Int(-3)), loc.clone()),
                Expr::new(Box::new(ExprKind::Float64("1.5".to_string())), loc.clone()),
                Expr::new(Box::new(ExprKind::Rune('r')), loc.clone()),
            ],
        }),
        loc.clone(),
    );
    let cast = Expr::new(
        Box::new(ExprKind::Cast {
            ty: Ty::Slice(Box::new(Ty::Name("int".to_string()))),
            expr: Box::new(call),
        }),
        loc.clone(),
    );
    let sum = Expr::new(
        Box::new(ExprKind::BinaryOp {
            op: BinOp::Add,
            expr1: Box::new(cast),
            expr2: Box::new(Expr::new(
                Box::new(ExprKind::UnaryOp { op: UnaryOp::Negate, expr: Box::new(name("y")) }),
                loc.clone(),
            )),
        }),
        loc.clone(),
    );
    let copy = sum.clone();
    assert_eq!(format!("{:?}", sum), format!("{:?}", copy));
    assert_eq!(format!("{:?}", sum.expr_kind), format!("{:?}", (*sum.expr_kind).clone()));
    assert_eq!(
        ErrorType::UnexpectedToken(TokenType::Plus, vec![TokenType::Id, TokenType::Semi]),
        ErrorType::UnexpectedToken(TokenType::Plus, vec![TokenType::Id, TokenType::Semi]).clone()
    );
    assert_eq!(ErrorType::Internal("x".to_string()), ErrorType::Internal("x".to_string()).clone());
}
