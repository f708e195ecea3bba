//! The grammar, as pure functions of a token sequence and a position in it.
//!
//! Each function says what stands at a position: the tree that was
//! recognised together with the position behind it, or the first error
//! together with the position at which the parser stops. Past the end of
//! the sequence the last token is seen again, but it is looked at as no
//! kind at all.

use vstd::prelude::*;
use crate::error::{ErrorTypeView, ErrorView};
use crate::loc::LocView;
use crate::numeral::{i64_of, usize_of, usize_of_hex};
use crate::token::{Token, TokenType};
use crate::untyped_ast::{
    AstView, ExprKindView, ExprView, FunDeclView, ParamView, StmtKindView, StmtView,
    TopLevelDeclView, TyView, TypeDeclView, VarDeclView,
};

verus! {

/// What encloses a statement. It decides whether `break` and `continue` may
/// stand there.
#[derive(Debug, Clone, Copy, PartialEq, Eq, Structural)]
pub struct Context {
    pub in_loop: bool,
    pub in_switch: bool,
}

/// Where the parser stops, and why: the error, and the position that the
/// parser has reached when it gives the error.
pub struct Stop {
    pub error: ErrorView,
    pub at: int,
}

/// True if a token of kind `ty` stands at `pos`.
pub open spec fn looking_at(tokens: Seq<Token>, pos: int, ty: TokenType) -> bool {
    0 <= pos < tokens.len() && tokens[pos].ty == ty
}

/// The token at `pos`, and the last token past the end.
pub open spec fn current(tokens: Seq<Token>, pos: int) -> Token {
    if 0 <= pos < tokens.len() {
        tokens[pos]
    } else {
        tokens.last()
    }
}

/// The error of kind `ty`, located at the token at `pos`, on which the
/// parser stops.
pub open spec fn failure(tokens: Seq<Token>, pos: int, ty: ErrorTypeView) -> Stop {
    Stop { error: ErrorView { ty: ty, loc: current(tokens, pos).loc@ }, at: pos }
}

/// The error for a token at `pos` that is not of the kind `expected`; the
/// parser stops on that token.
pub open spec fn unexpected(tokens: Seq<Token>, pos: int, expected: TokenType) -> Stop {
    failure(
        tokens,
        pos,
        ErrorTypeView::UnexpectedToken(current(tokens, pos).ty, seq![expected]),
    )
}

/// The text of a token, which names and literals have.
pub open spec fn lexeme_of(t: Token) -> Result<Seq<char>, ErrorView> {
    match t.lexeme {
        Some(s) => Ok(s@),
        None => Err(ErrorView { ty: ErrorTypeView::MissingLexeme, loc: t.loc@ }),
    }
}

/// The size that the text of a literal denotes: in base sixteen where the
/// token is a hexadecimal literal, whose text holds the digits without the
/// prefix, and in base ten otherwise.
pub open spec fn size_of_literal(ty: TokenType, text: Seq<char>) -> Option<usize> {
    if ty == TokenType::IntHex {
        usize_of_hex(text)
    } else {
        usize_of(text)
    }
}

/// The size that a token denotes.
pub open spec fn usize_lexeme(t: Token) -> Result<usize, ErrorView> {
    match t.lexeme {
        Some(s) => match size_of_literal(t.ty, s@) {
            Some(n) => Ok(n),
            None => Err(ErrorView { ty: ErrorTypeView::MissingLexeme, loc: t.loc@ }),
        },
        None => Err(ErrorView { ty: ErrorTypeView::MissingLexeme, loc: t.loc@ }),
    }
}

/// The integer that the text of a token denotes.
pub open spec fn i64_lexeme(t: Token) -> Result<i64, ErrorView> {
    match t.lexeme {
        Some(s) => match i64_of(s@) {
            Some(n) => Ok(n),
            None => Err(ErrorView { ty: ErrorTypeView::MissingLexeme, loc: t.loc@ }),
        },
        None => Err(ErrorView { ty: ErrorTypeView::MissingLexeme, loc: t.loc@ }),
    }
}

/// A name.
pub open spec fn id(tokens: Seq<Token>, pos: int) -> Result<(Seq<char>, int), Stop> {
    if looking_at(tokens, pos, TokenType::Id) {
        match lexeme_of(tokens[pos]) {
            Ok(name) => Ok((name, pos + 1)),
            Err(e) => Err(Stop { error: e, at: pos + 1 }),
        }
    } else {
        Err(unexpected(tokens, pos, TokenType::Id))
    }
}

/// The rest of a list of names, after the names in `names`.
pub open spec fn id_list_from(tokens: Seq<Token>, pos: int, names: Seq<Seq<char>>) -> Result<
    (Seq<Seq<char>>, int),
    Stop,
>
    decreases tokens.len() - pos,
{
    if looking_at(tokens, pos, TokenType::Comma) {
        match id(tokens, pos + 1) {
            Ok((name, next)) => id_list_from(tokens, next, names.push(name)),
            Err(e) => Err(e),
        }
    } else {
        Ok((names, pos))
    }
}

/// One or more names, with commas between them.
pub open spec fn id_list(tokens: Seq<Token>, pos: int) -> Result<(Seq<Seq<char>>, int), Stop> {
    match id(tokens, pos) {
        Ok((name, next)) => id_list_from(tokens, next, seq![name]),
        Err(e) => Err(e),
    }
}

/// A type: a name, or `[` `]` or `[` size `]` before the type of the
/// elements.
pub open spec fn ty(tokens: Seq<Token>, pos: int) -> Result<(TyView, int), Stop>
    decreases tokens.len() - pos,
{
    if looking_at(tokens, pos, TokenType::Id) {
        match lexeme_of(tokens[pos]) {
            Ok(name) => Ok((TyView::Name(name), pos + 1)),
            Err(e) => Err(Stop { error: e, at: pos + 1 }),
        }
    } else if looking_at(tokens, pos, TokenType::LBracket) {
        if looking_at(tokens, pos + 1, TokenType::Int) || looking_at(
            tokens,
            pos + 1,
            TokenType::IntHex,
        ) {
            match usize_lexeme(tokens[pos + 1]) {
                Err(e) => Err(Stop { error: e, at: pos + 1 }),
                Ok(size) => {
                    if looking_at(tokens, pos + 2, TokenType::RBracket) {
                        match ty(tokens, pos + 3) {
                            Ok((elem, next)) => Ok(
                                (TyView::Array(size as nat, Box::new(elem)), next),
                            ),
                            Err(e) => Err(e),
                        }
                    } else {
                        Err(unexpected(tokens, pos + 2, TokenType::RBracket))
                    }
                },
            }
        } else if looking_at(tokens, pos + 1, TokenType::RBracket) {
            match ty(tokens, pos + 2) {
                Ok((elem, next)) => Ok((TyView::Slice(Box::new(elem)), next)),
                Err(e) => Err(e),
            }
        } else {
            Err(unexpected(tokens, pos + 1, TokenType::RBracket))
        }
    } else {
        Err(
            failure(
                tokens,
                pos,
                ErrorTypeView::UnexpectedToken(
                    current(tokens, pos).ty,
                    seq![TokenType::Id, TokenType::LBracket],
                ),
            ),
        )
    }
}

/// An expression: a name or a decimal integer.
pub open spec fn expr(tokens: Seq<Token>, pos: int) -> Result<(ExprView, int), Stop> {
    let loc = current(tokens, pos).loc@;
    if looking_at(tokens, pos, TokenType::Id) {
        match lexeme_of(tokens[pos]) {
            Ok(name) => Ok((ExprView { kind: ExprKindView::Id(name), loc: loc }, pos + 1)),
            Err(e) => Err(Stop { error: e, at: pos + 1 }),
        }
    } else if looking_at(tokens, pos, TokenType::Int) {
        match i64_lexeme(tokens[pos]) {
            Ok(value) => Ok(
                (ExprView { kind: ExprKindView::Int(value as int), loc: loc }, pos + 1),
            ),
            Err(e) => Err(Stop { error: e, at: pos + 1 }),
        }
    } else {
        Err(failure(tokens, pos, ErrorTypeView::ExpectedExpression))
    }
}

/// The rest of a list of expressions, after those in `exprs`.
pub open spec fn expr_list_from(tokens: Seq<Token>, pos: int, exprs: Seq<ExprView>) -> Result<
    (Seq<ExprView>, int),
    Stop,
>
    decreases tokens.len() - pos,
{
    if looking_at(tokens, pos, TokenType::Comma) {
        match expr(tokens, pos + 1) {
            Ok((e, next)) => expr_list_from(tokens, next, exprs.push(e)),
            Err(e) => Err(e),
        }
    } else {
        Ok((exprs, pos))
    }
}

/// One or more expressions, with commas between them.
pub open spec fn expr_list(tokens: Seq<Token>, pos: int) -> Result<(Seq<ExprView>, int), Stop> {
    match expr(tokens, pos) {
        Ok((e, next)) => expr_list_from(tokens, next, seq![e]),
        Err(e) => Err(e),
    }
}

/// The text of the internal error for a token that starts no statement.
pub open spec fn no_statement() -> Seq<char> {
    "no statement starts here"@
}

/// True if a statement starts at `pos`.
pub open spec fn starts_stmt(tokens: Seq<Token>, pos: int) -> bool {
    looking_at(tokens, pos, TokenType::Print) || looking_at(tokens, pos, TokenType::Println)
        || looking_at(tokens, pos, TokenType::Break) || looking_at(
        tokens,
        pos,
        TokenType::Continue,
    )
}

/// A statement: `print` or `println` with its arguments in parentheses,
/// `break` inside a loop or a switch, `continue` inside a loop.
pub open spec fn stmt(tokens: Seq<Token>, pos: int, ctx: Context) -> Result<
    (StmtView, int),
    Stop,
> {
    let loc = current(tokens, pos).loc@;
    if looking_at(tokens, pos, TokenType::Print) || looking_at(tokens, pos, TokenType::Println) {
        if !looking_at(tokens, pos + 1, TokenType::LParen) {
            Err(unexpected(tokens, pos + 1, TokenType::LParen))
        } else {
            match expr_list(tokens, pos + 2) {
                Err(e) => Err(e),
                Ok((exprs, next)) => {
                    if looking_at(tokens, next, TokenType::RParen) {
                        Ok(
                            (
                                StmtView {
                                    kind: StmtKindView::Print {
                                        exprs: exprs,
                                        newline: looking_at(tokens, pos, TokenType::Println),
                                    },
                                    loc: loc,
                                },
                                next + 1,
                            ),
                        )
                    } else {
                        Err(unexpected(tokens, next, TokenType::RParen))
                    }
                },
            }
        }
    } else if looking_at(tokens, pos, TokenType::Break) {
        if ctx.in_switch || ctx.in_loop {
            Ok((StmtView { kind: StmtKindView::Break, loc: loc }, pos + 1))
        } else {
            Err(failure(tokens, pos, ErrorTypeView::InvalidBreak))
        }
    } else if looking_at(tokens, pos, TokenType::Continue) {
        if ctx.in_loop {
            Ok((StmtView { kind: StmtKindView::Continue, loc: loc }, pos + 1))
        } else {
            Err(failure(tokens, pos, ErrorTypeView::InvalidContinue))
        }
    } else {
        Err(failure(tokens, pos, ErrorTypeView::Internal(no_statement())))
    }
}

/// The statements of a block, each with a semicolon behind it, after those
/// in `stmts`. The list goes on as long as a statement starts.
pub open spec fn stmt_list_from(
    tokens: Seq<Token>,
    pos: int,
    ctx: Context,
    stmts: Seq<StmtView>,
) -> Result<(Seq<StmtView>, int), Stop>
    decreases tokens.len() - pos,
{
    if starts_stmt(tokens, pos) {
        match stmt(tokens, pos, ctx) {
            Err(e) => Err(e),
            Ok((s, next)) => {
                if looking_at(tokens, next, TokenType::Semi) {
                    proof {
                        lemma_stmt_advances(tokens, pos, ctx);
                    }
                    stmt_list_from(tokens, next + 1, ctx, stmts.push(s))
                } else {
                    Err(unexpected(tokens, next, TokenType::Semi))
                }
            },
        }
    } else {
        Ok((stmts, pos))
    }
}

/// The parameters that `names` declare with the type `t`.
pub open spec fn params_of(names: Seq<Seq<char>>, t: TyView) -> Seq<ParamView> {
    Seq::new(names.len(), |i: int| ParamView { name: names[i], ty: t })
}

/// The rest of a parameter list, up to the closing parenthesis, which is
/// not read. Each group is a list of names and their type; a comma stands
/// before every group but the first.
pub open spec fn param_list_from(
    tokens: Seq<Token>,
    pos: int,
    first: bool,
    params: Seq<ParamView>,
) -> Result<(Seq<ParamView>, int), Stop>
    decreases tokens.len() - pos,
{
    if looking_at(tokens, pos, TokenType::RParen) {
        Ok((params, pos))
    } else if !first && !looking_at(tokens, pos, TokenType::Comma) {
        Err(unexpected(tokens, pos, TokenType::Comma))
    } else {
        let start = if first {
            pos
        } else {
            pos + 1
        };
        match id_list(tokens, start) {
            Err(e) => Err(e),
            Ok((names, next)) => match ty(tokens, next) {
                Err(e) => Err(e),
                Ok((t, after)) => {
                    proof {
                        lemma_id_list_advances(tokens, start);
                        lemma_ty_advances(tokens, next);
                    }
                    param_list_from(tokens, after, false, params + params_of(names, t))
                },
            },
        }
    }
}

/// A function: `func`, its name, its parameters in parentheses, the type
/// of its result unless the body follows at once, its body in braces, and
/// a semicolon.
pub open spec fn func_decl(tokens: Seq<Token>, pos: int) -> Result<(FunDeclView, int), Stop> {
    let loc = current(tokens, pos).loc@;
    if !looking_at(tokens, pos, TokenType::Func) {
        Err(unexpected(tokens, pos, TokenType::Func))
    } else {
        match id(tokens, pos + 1) {
            Err(e) => Err(e),
            Ok((name, after_name)) => {
                if !looking_at(tokens, after_name, TokenType::LParen) {
                    Err(failure(tokens, after_name, ErrorTypeView::ExpectedParamList))
                } else {
                    match param_list_from(tokens, after_name + 1, true, Seq::empty()) {
                        Err(e) => Err(e),
                        Ok((params, after_params)) => {
                            if !looking_at(tokens, after_params, TokenType::RParen) {
                                Err(unexpected(tokens, after_params, TokenType::RParen))
                            } else {
                                match return_ty(tokens, after_params + 1) {
                                    Err(e) => Err(e),
                                    Ok((result, after_result)) => func_body(
                                        tokens,
                                        after_result,
                                        name,
                                        params,
                                        result,
                                        loc,
                                    ),
                                }
                            }
                        },
                    }
                }
            },
        }
    }
}

/// The type of a function's result: none where the body starts at once.
pub open spec fn return_ty(tokens: Seq<Token>, pos: int) -> Result<(TyView, int), Stop> {
    if looking_at(tokens, pos, TokenType::LBrace) {
        Ok((TyView::Void, pos))
    } else {
        ty(tokens, pos)
    }
}

/// The body of the function with the given name, parameters and result,
/// and the semicolon behind it.
pub open spec fn func_body(
    tokens: Seq<Token>,
    pos: int,
    name: Seq<char>,
    params: Seq<ParamView>,
    result: TyView,
    loc: LocView,
) -> Result<(FunDeclView, int), Stop> {
    if !looking_at(tokens, pos, TokenType::LBrace) {
        Err(unexpected(tokens, pos, TokenType::LBrace))
    } else {
        match stmt_list_from(
            tokens,
            pos + 1,
            Context { in_loop: false, in_switch: false },
            Seq::empty(),
        ) {
            Err(e) => Err(e),
            Ok((body, after_body)) => {
                if !looking_at(tokens, after_body, TokenType::RBrace) {
                    Err(unexpected(tokens, after_body, TokenType::RBrace))
                } else if !looking_at(tokens, after_body + 1, TokenType::Semi) {
                    Err(unexpected(tokens, after_body + 1, TokenType::Semi))
                } else {
                    Ok(
                        (
                            FunDeclView {
                                name: name,
                                params: params,
                                return_ty: result,
                                body: body,
                                loc: loc,
                            },
                            after_body + 2,
                        ),
                    )
                }
            },
        }
    }
}

/// One type declaration: a name and the type it stands for. Whatever is
/// wrong with the type, the declaration is what is reported as invalid.
pub open spec fn one_type_decl(tokens: Seq<Token>, pos: int) -> Result<
    (TypeDeclView, int),
    Stop,
> {
    let loc = current(tokens, pos).loc@;
    match id(tokens, pos) {
        Err(e) => Err(e),
        Ok((name, next)) => match ty(tokens, next) {
            Err(e) => Err(
                Stop {
                    error: ErrorView { ty: ErrorTypeView::InvalidTypeDecl, loc: e.error.loc },
                    at: e.at,
                },
            ),
            Ok((t, after)) => Ok((TypeDeclView { name: name, ty: t, loc: loc }, after)),
        },
    }
}

/// The type declarations of a group, each with a semicolon behind it, after
/// those in `decls`.
pub open spec fn type_specs_from(tokens: Seq<Token>, pos: int, decls: Seq<TypeDeclView>) -> Result<
    (Seq<TypeDeclView>, int),
    Stop,
>
    decreases tokens.len() - pos,
{
    if looking_at(tokens, pos, TokenType::Id) {
        match one_type_decl(tokens, pos) {
            Err(e) => Err(e),
            Ok((d, next)) => {
                if looking_at(tokens, next, TokenType::Semi) {
                    proof {
                        lemma_ty_advances(tokens, pos + 1);
                    }
                    type_specs_from(tokens, next + 1, decls.push(d))
                } else {
                    Err(unexpected(tokens, next, TokenType::Semi))
                }
            },
        }
    } else {
        Ok((decls, pos))
    }
}

/// What `type` at `pos` declares: one declaration, or a group of one or
/// more in parentheses.
pub open spec fn type_decl(tokens: Seq<Token>, pos: int) -> Result<
    (Seq<TypeDeclView>, int),
    Stop,
> {
    let loc = current(tokens, pos).loc@;
    if looking_at(tokens, pos + 1, TokenType::Id) {
        match one_type_decl(tokens, pos + 1) {
            Err(e) => Err(e),
            Ok((d, next)) => Ok((seq![d], next)),
        }
    } else if looking_at(tokens, pos + 1, TokenType::LParen) {
        match type_specs_from(tokens, pos + 2, Seq::empty()) {
            Err(e) => Err(e),
            Ok((decls, next)) => {
                if decls.len() == 0 {
                    Err(
                        Stop {
                            error: ErrorView { ty: ErrorTypeView::InvalidTypeDecl, loc: loc },
                            at: next,
                        },
                    )
                } else if looking_at(tokens, next, TokenType::RParen) {
                    Ok((decls, next + 1))
                } else {
                    Err(unexpected(tokens, next, TokenType::RParen))
                }
            },
        }
    } else {
        Err(
            Stop {
                error: ErrorView { ty: ErrorTypeView::InvalidTypeDecl, loc: loc },
                at: pos + 1,
            },
        )
    }
}

/// True if a type may start with a token of the kind at `pos`.
pub open spec fn starts_type(tokens: Seq<Token>, pos: int) -> bool {
    looking_at(tokens, pos, TokenType::Id) || looking_at(tokens, pos, TokenType::LBracket)
        || looking_at(tokens, pos, TokenType::Struct)
}

/// The type of a variable specification, where one is written.
pub open spec fn optional_ty(tokens: Seq<Token>, pos: int) -> Result<
    (Option<TyView>, int),
    Stop,
> {
    if starts_type(tokens, pos) {
        match ty(tokens, pos) {
            Ok((t, next)) => Ok((Some(t), next)),
            Err(e) => Err(e),
        }
    } else {
        Ok((None, pos))
    }
}

/// The initial values of a variable specification, where `=` is written.
pub open spec fn optional_inits(tokens: Seq<Token>, pos: int) -> Result<
    (Seq<ExprView>, int),
    Stop,
> {
    if looking_at(tokens, pos, TokenType::Assign) {
        expr_list(tokens, pos + 1)
    } else {
        Ok((Seq::empty(), pos))
    }
}

/// The variables that `names` declare: all of the type `ty`, if there is
/// one, and each with the initial value at its own place in `inits`, if
/// there are any.
pub open spec fn var_decls_of(
    names: Seq<Seq<char>>,
    ty: Option<TyView>,
    inits: Seq<ExprView>,
    loc: LocView,
) -> Seq<VarDeclView> {
    Seq::new(
        names.len(),
        |i: int|
            VarDeclView {
                name: names[i],
                ty: ty,
                init: if i < inits.len() {
                    Some(inits[i])
                } else {
                    None
                },
                loc: loc,
            },
    )
}

/// One variable specification: names, then a type, or `=` and as many
/// expressions as there are names, or both. `loc` is where the declaration
/// starts, and its errors are reported there.
pub open spec fn var_spec(tokens: Seq<Token>, pos: int, loc: LocView) -> Result<
    (Seq<VarDeclView>, int),
    Stop,
> {
    match id_list(tokens, pos) {
        Err(e) => Err(e),
        Ok((names, after_names)) => match optional_ty(tokens, after_names) {
            Err(e) => Err(e),
            Ok((t, after_type)) => match optional_inits(tokens, after_type) {
                Err(e) => Err(e),
                Ok((inits, after_inits)) => {
                    if t is None && inits.len() == 0 {
                        Err(
                            Stop {
                                error: ErrorView { ty: ErrorTypeView::InvalidVarDecl, loc: loc },
                                at: after_inits,
                            },
                        )
                    } else if inits.len() != 0 && inits.len() != names.len() {
                        Err(
                            Stop {
                                error: ErrorView {
                                    ty: ErrorTypeView::VarExprLengthMismatch,
                                    loc: loc,
                                },
                                at: after_inits,
                            },
                        )
                    } else {
                        Ok((var_decls_of(names, t, inits, loc), after_inits))
                    }
                },
            },
        },
    }
}

/// The variable specifications of a group, each with a semicolon behind
/// it, after the declarations in `decls`.
pub open spec fn var_specs_from(
    tokens: Seq<Token>,
    pos: int,
    loc: LocView,
    decls: Seq<VarDeclView>,
) -> Result<(Seq<VarDeclView>, int), Stop>
    decreases tokens.len() - pos,
{
    if looking_at(tokens, pos, TokenType::Id) {
        match var_spec(tokens, pos, loc) {
            Err(e) => Err(e),
            Ok((ds, next)) => {
                if looking_at(tokens, next, TokenType::Semi) {
                    proof {
                        lemma_var_spec_advances(tokens, pos, loc);
                    }
                    var_specs_from(tokens, next + 1, loc, decls + ds)
                } else {
                    Err(unexpected(tokens, next, TokenType::Semi))
                }
            },
        }
    } else {
        Ok((decls, pos))
    }
}

/// What `var` at `pos` declares: one specification, or a group of one or
/// more in parentheses.
pub open spec fn var_decl(tokens: Seq<Token>, pos: int) -> Result<
    (Seq<VarDeclView>, int),
    Stop,
> {
    let loc = current(tokens, pos).loc@;
    if looking_at(tokens, pos + 1, TokenType::Id) {
        var_spec(tokens, pos + 1, loc)
    } else if looking_at(tokens, pos + 1, TokenType::LParen) {
        match var_specs_from(tokens, pos + 2, loc, Seq::empty()) {
            Err(e) => Err(e),
            Ok((decls, next)) => {
                if decls.len() == 0 {
                    Err(
                        Stop {
                            error: ErrorView { ty: ErrorTypeView::InvalidVarDecl, loc: loc },
                            at: next,
                        },
                    )
                } else if looking_at(tokens, next, TokenType::RParen) {
                    Ok((decls, next + 1))
                } else {
                    Err(unexpected(tokens, next, TokenType::RParen))
                }
            },
        }
    } else {
        Err(failure(tokens, pos + 1, ErrorTypeView::InvalidVarDecl))
    }
}

/// True if a declaration starts at `pos`.
pub open spec fn starts_decl(tokens: Seq<Token>, pos: int) -> bool {
    looking_at(tokens, pos, TokenType::Var) || looking_at(tokens, pos, TokenType::Func)
        || looking_at(tokens, pos, TokenType::Type)
}

/// One declaration at the top of a file, which may declare several things:
/// variables or types, with a semicolon behind them, or a function.
pub open spec fn toplevel_decl(tokens: Seq<Token>, pos: int) -> Result<
    (Seq<TopLevelDeclView>, int),
    Stop,
> {
    if looking_at(tokens, pos, TokenType::Var) {
        match var_decl(tokens, pos) {
            Err(e) => Err(e),
            Ok((decls, next)) => {
                if looking_at(tokens, next, TokenType::Semi) {
                    Ok((decls.map_values(|d: VarDeclView| TopLevelDeclView::VarDecl(d)), next + 1))
                } else {
                    Err(unexpected(tokens, next, TokenType::Semi))
                }
            },
        }
    } else if looking_at(tokens, pos, TokenType::Type) {
        match type_decl(tokens, pos) {
            Err(e) => Err(e),
            Ok((decls, next)) => {
                if looking_at(tokens, next, TokenType::Semi) {
                    Ok(
                        (
                            decls.map_values(|d: TypeDeclView| TopLevelDeclView::TypeDecl(d)),
                            next + 1,
                        ),
                    )
                } else {
                    Err(unexpected(tokens, next, TokenType::Semi))
                }
            },
        }
    } else if looking_at(tokens, pos, TokenType::Func) {
        match func_decl(tokens, pos) {
            Err(e) => Err(e),
            Ok((f, next)) => Ok((seq![TopLevelDeclView::FunDecl(f)], next)),
        }
    } else {
        Err(failure(tokens, pos, ErrorTypeView::ExpectedDeclaration))
    }
}

/// The declarations of a file, after those in `decls`.
pub open spec fn decls_from(tokens: Seq<Token>, pos: int, decls: Seq<TopLevelDeclView>) -> Result<
    (Seq<TopLevelDeclView>, int),
    Stop,
>
    decreases tokens.len() - pos,
{
    if starts_decl(tokens, pos) {
        match toplevel_decl(tokens, pos) {
            Err(e) => Err(e),
            Ok((ds, next)) => {
                proof {
                    lemma_toplevel_decl_advances(tokens, pos);
                }
                decls_from(tokens, next, decls + ds)
            },
        }
    } else {
        Ok((decls, pos))
    }
}

/// A file: `package`, the name of the package, a semicolon, the
/// declarations, and the end-of-file token.
pub open spec fn file(tokens: Seq<Token>) -> Result<AstView, ErrorView> {
    match file_at(tokens, 0) {
        Ok((ast, end)) => Ok(ast),
        Err(e) => Err(e.error),
    }
}

/// A file that starts at `pos`.
pub open spec fn file_at(tokens: Seq<Token>, pos: int) -> Result<(AstView, int), Stop> {
    let loc = current(tokens, pos).loc@;
    if !looking_at(tokens, pos, TokenType::Package) {
        Err(failure(tokens, pos, ErrorTypeView::MissingPackageDeclaration))
    } else if !looking_at(tokens, pos + 1, TokenType::Id) {
        Err(failure(tokens, pos + 1, ErrorTypeView::MissingPackageName))
    } else {
        match lexeme_of(tokens[pos + 1]) {
            Err(e) => Err(Stop { error: e, at: pos + 2 }),
            Ok(name) => {
                if !looking_at(tokens, pos + 2, TokenType::Semi) {
                    Err(unexpected(tokens, pos + 2, TokenType::Semi))
                } else {
                    match decls_from(tokens, pos + 3, Seq::empty()) {
                        Err(e) => Err(e),
                        Ok((decls, next)) => {
                            if looking_at(tokens, next, TokenType::Eof) {
                                Ok(
                                    (
                                        AstView {
                                            package_name: name,
                                            declarations: decls,
                                            loc: loc,
                                        },
                                        next + 1,
                                    ),
                                )
                            } else {
                                Err(unexpected(tokens, next, TokenType::Eof))
                            }
                        },
                    }
                }
            },
        }
    }
}

/// A list of names ends behind its first name, inside the sequence.
pub proof fn lemma_id_list_from_advances(tokens: Seq<Token>, pos: int, names: Seq<Seq<char>>)
    requires
        0 <= pos <= tokens.len(),
    ensures
        id_list_from(tokens, pos, names) matches Ok((all, next)) ==> pos <= next <= tokens.len()
            && all.len() >= names.len(),
    decreases tokens.len() - pos,
{
    if looking_at(tokens, pos, TokenType::Comma) {
        match id(tokens, pos + 1) {
            Ok((name, next)) => {
                lemma_id_list_from_advances(tokens, next, names.push(name));
            },
            Err(e) => {},
        }
    }
}

/// A list of names is not empty and takes at least one token.
pub proof fn lemma_id_list_advances(tokens: Seq<Token>, pos: int)
    requires
        0 <= pos,
    ensures
        id_list(tokens, pos) matches Ok((names, next)) ==> pos < next <= tokens.len()
            && names.len() >= 1,
{
    match id(tokens, pos) {
        Ok((name, next)) => {
            lemma_id_list_from_advances(tokens, next, seq![name]);
        },
        Err(e) => {},
    }
}

/// A type takes at least one token.
pub proof fn lemma_ty_advances(tokens: Seq<Token>, pos: int)
    requires
        0 <= pos,
    ensures
        ty(tokens, pos) matches Ok((t, next)) ==> pos < next <= tokens.len(),
    decreases tokens.len() - pos,
{
    if looking_at(tokens, pos, TokenType::LBracket) {
        if pos + 3 <= tokens.len() {
            lemma_ty_advances(tokens, pos + 3);
        }
        if pos + 2 <= tokens.len() {
            lemma_ty_advances(tokens, pos + 2);
        }
    }
}

/// A list of expressions ends behind its first expression.
pub proof fn lemma_expr_list_from_advances(tokens: Seq<Token>, pos: int, exprs: Seq<ExprView>)
    requires
        0 <= pos <= tokens.len(),
    ensures
        expr_list_from(tokens, pos, exprs) matches Ok((all, next)) ==> pos <= next <= tokens.len()
            && all.len() >= exprs.len(),
    decreases tokens.len() - pos,
{
    if looking_at(tokens, pos, TokenType::Comma) {
        match expr(tokens, pos + 1) {
            Ok((e, next)) => {
                lemma_expr_list_from_advances(tokens, next, exprs.push(e));
            },
            Err(e) => {},
        }
    }
}

/// A list of expressions is not empty and takes at least one token.
pub proof fn lemma_expr_list_advances(tokens: Seq<Token>, pos: int)
    requires
        0 <= pos,
    ensures
        expr_list(tokens, pos) matches Ok((exprs, next)) ==> pos < next <= tokens.len()
            && exprs.len() >= 1,
{
    match expr(tokens, pos) {
        Ok((e, next)) => {
            lemma_expr_list_from_advances(tokens, next, seq![e]);
        },
        Err(e) => {},
    }
}

/// A statement takes at least one token.
pub proof fn lemma_stmt_advances(tokens: Seq<Token>, pos: int, ctx: Context)
    requires
        0 <= pos,
    ensures
        stmt(tokens, pos, ctx) matches Ok((s, next)) ==> pos < next <= tokens.len(),
{
    lemma_expr_list_advances(tokens, pos + 2);
}

/// The statements of a block end inside the sequence.
pub proof fn lemma_stmt_list_from_advances(
    tokens: Seq<Token>,
    pos: int,
    ctx: Context,
    stmts: Seq<StmtView>,
)
    requires
        0 <= pos <= tokens.len(),
    ensures
        stmt_list_from(tokens, pos, ctx, stmts) matches Ok((all, next)) ==> pos <= next
            <= tokens.len(),
    decreases tokens.len() - pos,
{
    if starts_stmt(tokens, pos) {
        lemma_stmt_advances(tokens, pos, ctx);
        match stmt(tokens, pos, ctx) {
            Err(e) => {},
            Ok((s, next)) => {
                if looking_at(tokens, next, TokenType::Semi) {
                    lemma_stmt_list_from_advances(tokens, next + 1, ctx, stmts.push(s));
                }
            },
        }
    }
}

/// A parameter list ends inside the sequence.
pub proof fn lemma_param_list_from_advances(
    tokens: Seq<Token>,
    pos: int,
    first: bool,
    params: Seq<ParamView>,
)
    requires
        0 <= pos <= tokens.len(),
    ensures
        param_list_from(tokens, pos, first, params) matches Ok((all, next)) ==> pos <= next
            <= tokens.len(),
    decreases tokens.len() - pos,
{
    if looking_at(tokens, pos, TokenType::RParen) {
    } else if !first && !looking_at(tokens, pos, TokenType::Comma) {
    } else {
        let start = if first {
            pos
        } else {
            pos + 1
        };
        lemma_id_list_advances(tokens, start);
        match id_list(tokens, start) {
            Err(e) => {},
            Ok((names, next)) => {
                lemma_ty_advances(tokens, next);
                match ty(tokens, next) {
                    Err(e) => {},
                    Ok((t, after)) => {
                        lemma_param_list_from_advances(
                            tokens,
                            after,
                            false,
                            params + params_of(names, t),
                        );
                    },
                }
            },
        }
    }
}

/// A function takes at least one token.
pub proof fn lemma_func_decl_advances(tokens: Seq<Token>, pos: int)
    requires
        0 <= pos,
    ensures
        func_decl(tokens, pos) matches Ok((f, next)) ==> pos < next <= tokens.len(),
{
    if looking_at(tokens, pos, TokenType::Func) {
        match id(tokens, pos + 1) {
            Err(e) => {},
            Ok((name, after_name)) => {
                if looking_at(tokens, after_name, TokenType::LParen) {
                    lemma_param_list_from_advances(tokens, after_name + 1, true, Seq::empty());
                    match param_list_from(tokens, after_name + 1, true, Seq::empty()) {
                        Err(e) => {},
                        Ok((params, after_params)) => {
                            if looking_at(tokens, after_params, TokenType::RParen) {
                                lemma_ty_advances(tokens, after_params + 1);
                                match return_ty(tokens, after_params + 1) {
                                    Err(e) => {},
                                    Ok((result, after_result)) => {
                                        if looking_at(tokens, after_result, TokenType::LBrace) {
                                            lemma_stmt_list_from_advances(
                                                tokens,
                                                after_result + 1,
                                                Context { in_loop: false, in_switch: false },
                                                Seq::empty(),
                                            );
                                        }
                                    },
                                }
                            }
                        },
                    }
                }
            },
        }
    }
}

/// The type declarations of a group end inside the sequence.
pub proof fn lemma_type_specs_from_advances(tokens: Seq<Token>, pos: int, decls: Seq<TypeDeclView>)
    requires
        0 <= pos <= tokens.len(),
    ensures
        type_specs_from(tokens, pos, decls) matches Ok((all, next)) ==> pos <= next
            <= tokens.len(),
    decreases tokens.len() - pos,
{
    if looking_at(tokens, pos, TokenType::Id) {
        lemma_ty_advances(tokens, pos + 1);
        match one_type_decl(tokens, pos) {
            Err(e) => {},
            Ok((d, next)) => {
                if looking_at(tokens, next, TokenType::Semi) {
                    lemma_type_specs_from_advances(tokens, next + 1, decls.push(d));
                }
            },
        }
    }
}

/// A variable specification takes at least one token.
pub proof fn lemma_var_spec_advances(tokens: Seq<Token>, pos: int, loc: LocView)
    requires
        0 <= pos,
    ensures
        var_spec(tokens, pos, loc) matches Ok((decls, next)) ==> pos < next <= tokens.len()
            && decls.len() >= 1,
{
    lemma_id_list_advances(tokens, pos);
    match id_list(tokens, pos) {
        Err(e) => {},
        Ok((names, after_names)) => {
            lemma_ty_advances(tokens, after_names);
            match optional_ty(tokens, after_names) {
                Err(e) => {},
                Ok((t, after_type)) => {
                    lemma_expr_list_advances(tokens, after_type + 1);
                },
            }
        },
    }
}

/// The variable specifications of a group end inside the sequence.
pub proof fn lemma_var_specs_from_advances(
    tokens: Seq<Token>,
    pos: int,
    loc: LocView,
    decls: Seq<VarDeclView>,
)
    requires
        0 <= pos <= tokens.len(),
    ensures
        var_specs_from(tokens, pos, loc, decls) matches Ok((all, next)) ==> pos <= next
            <= tokens.len(),
    decreases tokens.len() - pos,
{
    if looking_at(tokens, pos, TokenType::Id) {
        lemma_var_spec_advances(tokens, pos, loc);
        match var_spec(tokens, pos, loc) {
            Err(e) => {},
            Ok((ds, next)) => {
                if looking_at(tokens, next, TokenType::Semi) {
                    lemma_var_specs_from_advances(tokens, next + 1, loc, decls + ds);
                }
            },
        }
    }
}

/// A declaration at the top of a file takes at least one token.
pub proof fn lemma_toplevel_decl_advances(tokens: Seq<Token>, pos: int)
    requires
        0 <= pos,
    ensures
        toplevel_decl(tokens, pos) matches Ok((decls, next)) ==> pos < next <= tokens.len(),
{
    let loc = current(tokens, pos).loc@;
    if looking_at(tokens, pos, TokenType::Var) {
        lemma_var_spec_advances(tokens, pos + 1, loc);
        if looking_at(tokens, pos + 1, TokenType::LParen) {
            lemma_var_specs_from_advances(tokens, pos + 2, loc, Seq::empty());
        }
    } else if looking_at(tokens, pos, TokenType::Type) {
        lemma_ty_advances(tokens, pos + 2);
        if looking_at(tokens, pos + 1, TokenType::LParen) {
            lemma_type_specs_from_advances(tokens, pos + 2, Seq::empty());
        }
    } else if looking_at(tokens, pos, TokenType::Func) {
        lemma_func_decl_advances(tokens, pos);
    }
}

} // verus!
