//! The parser: recursive descent over a token sequence, one token of
//! lookahead, and a stop at the first error.

use vstd::prelude::*;
use crate::error::{err, Error, ErrorType};
use crate::grammar::{
    current, decls_from, expr, expr_list, expr_list_from, failure, file_at, func_decl, id, id_list,
    id_list_from, lemma_id_list_advances, lemma_stmt_advances, lemma_toplevel_decl_advances,
    lemma_ty_advances, lemma_var_spec_advances, lexeme_of, looking_at, one_type_decl,
    param_list_from, params_of, starts_decl, starts_stmt, stmt, stmt_list_from, toplevel_decl,
    ty, type_decl, type_specs_from, unexpected, var_decl, var_decls_of, var_spec, var_specs_from,
    Context, Stop,
};
use crate::loc::Loc;
use crate::numeral::{parse_i64, parse_usize, parse_usize_hex};
use crate::token::{Token, TokenType};
use crate::untyped_ast::{
    Ast, Expr, ExprKind, ExprView, FunDecl, Id, Param, ParamView, Stmt, StmtKind, StmtView,
    TopLevelDecl, TopLevelDeclView, Ty, TypeDecl, TypeDeclView, VarDecl, VarDeclView,
};

verus! {

/// A parser as contracts see it: its tokens, and how many of them it has
/// read.
pub struct ParserView {
    pub tokens: Seq<Token>,
    pub pos: int,
}

/// Turns a token sequence into a syntax tree.
pub struct Parser {
    tokens: Vec<Token>,
    pos: usize,
}

impl View for Parser {
    type V = ParserView;

    closed spec fn view(&self) -> ParserView {
        ParserView { tokens: self.tokens@, pos: self.pos as int }
    }
}

/// What a call has done that returned `r` and left the parser at `pos`:
/// what it has recognised, or why it has stopped, and where the parser
/// stands either way.
pub open spec fn parsed<T: DeepView>(r: Result<T, Error>, pos: int) -> Result<(T::V, int), Stop> {
    match r {
        Ok(t) => Ok((t.deep_view(), pos)),
        Err(e) => Err(Stop { error: e@, at: pos }),
    }
}

/// The text of a token.
fn copy_lexeme(t: &Token) -> (r: Result<String, Error>)
    ensures
        match lexeme_of(*t) {
            Ok(s) => r is Ok && r->Ok_0@ == s,
            Err(e) => r is Err && r->Err_0@ == e,
        },
{
    match &t.lexeme {
        None => err(ErrorType::MissingLexeme, t.loc.clone()),
        Some(s) => Ok(s.clone()),
    }
}

/// The size that a token denotes: its text read in base sixteen where it
/// is a hexadecimal literal, and in base ten otherwise.
fn usize_lexeme(t: &Token) -> (r: Result<usize, Error>)
    ensures
        match crate::grammar::usize_lexeme(*t) {
            Ok(n) => r is Ok && r->Ok_0 == n,
            Err(e) => r is Err && r->Err_0@ == e,
        },
{
    let lexeme = match copy_lexeme(t) {
        Ok(s) => s,
        Err(e) => {
            return Err(e);
        },
    };
    let size = if t.ty == TokenType::IntHex {
        parse_usize_hex(lexeme.as_str())
    } else {
        parse_usize(lexeme.as_str())
    };
    match size {
        Some(n) => Ok(n),
        None => err(ErrorType::MissingLexeme, t.loc.clone()),
    }
}

/// The integer that the text of a token denotes.
fn i64_lexeme(t: &Token) -> (r: Result<i64, Error>)
    ensures
        match crate::grammar::i64_lexeme(*t) {
            Ok(n) => r is Ok && r->Ok_0 == n,
            Err(e) => r is Err && r->Err_0@ == e,
        },
{
    let lexeme = match copy_lexeme(t) {
        Ok(s) => s,
        Err(e) => {
            return Err(e);
        },
    };
    match parse_i64(lexeme.as_str()) {
        Some(n) => Ok(n),
        None => err(ErrorType::MissingLexeme, t.loc.clone()),
    }
}

/// A copy of a type that may be missing.
fn clone_option_ty(t: &Option<Ty>) -> (r: Option<Ty>)
    ensures
        r.deep_view() == t.deep_view(),
{
    match t {
        Some(t) => Some(t.clone()),
        None => None,
    }
}

/// The elements of `v` in the opposite order.
fn reversed<T>(v: Vec<T>) -> (r: Vec<T>)
    ensures
        r@.len() == v@.len(),
        forall|i: int| 0 <= i < r@.len() ==> r@[i] == v@[v@.len() - 1 - i],
{
    let mut v = v;
    let ghost all = v@;
    let mut r: Vec<T> = Vec::new();
    while v.len() > 0
        invariant
            r@.len() + v@.len() == all.len(),
            v@ == all.subrange(0, v@.len() as int),
            forall|i: int| 0 <= i < r@.len() ==> r@[i] == all[all.len() - 1 - i],
        decreases v@.len(),
    {
        let last = v.pop().unwrap();
        r.push(last);
    }
    r
}

/// One declaration for each of `vnames`, all of the type `ty_opt`, and
/// each with the initial value at its own place in `init_vec`, if there
/// are initial values at all.
fn construct_var_decls(vnames: Vec<Id>, ty_opt: Option<Ty>, init_vec: Vec<Expr>, var_loc: &Loc) -> (r:
    Vec<VarDecl>)
    requires
        init_vec.len() == 0 || init_vec.len() == vnames.len(),
        ty_opt is Some || init_vec.len() > 0,
    ensures
        r.deep_view() == var_decls_of(
            vnames.deep_view(),
            ty_opt.deep_view(),
            init_vec.deep_view(),
            var_loc@,
        ),
        forall|i: int| 0 <= i < r@.len() ==> (#[trigger] r@[i]).wf(),
{
    let ghost names = vnames@;
    let ghost inits = init_vec@;
    let mut vnames = reversed(vnames);
    let mut init_vec = reversed(init_vec);
    let mut decls: Vec<VarDecl> = Vec::new();
    while vnames.len() > 0
        invariant
            inits.len() == 0 || inits.len() == names.len(),
            ty_opt is Some || inits.len() > 0,
            forall|i: int| 0 <= i < decls@.len() ==> (#[trigger] decls@[i]).wf(),
            decls@.len() + vnames@.len() == names.len(),
            init_vec@.len() == if inits.len() == 0 {
                0
            } else {
                vnames@.len()
            },
            forall|i: int|
                0 <= i < vnames@.len() ==> #[trigger] vnames@[i] == names[names.len() - 1 - i],
            forall|i: int|
                0 <= i < init_vec@.len() ==> #[trigger] init_vec@[i] == inits[inits.len() - 1 - i],
            forall|i: int|
                0 <= i < decls@.len() ==> (#[trigger] decls@[i]).deep_view() == (VarDeclView {
                    name: names[i]@,
                    ty: ty_opt.deep_view(),
                    init: if i < inits.len() {
                        Some(inits[i]@)
                    } else {
                        None
                    },
                    loc: var_loc@,
                }),
        decreases vnames@.len(),
    {
        let vname = vnames.pop().unwrap();
        let init_exp = init_vec.pop();
        decls.push(VarDecl::new(vname, clone_option_ty(&ty_opt), init_exp, var_loc.clone()));
    }
    assert(decls.deep_view() =~= var_decls_of(
        names.map_values(|n: Id| n.deep_view()),
        ty_opt.deep_view(),
        inits.map_values(|e: Expr| e.deep_view()),
        var_loc@,
    ));
    decls
}

impl Parser {
    /// What every parser holds: it has at least one token, and it has not
    /// read more tokens than it has.
    pub closed spec fn wf(&self) -> bool {
        self.tokens.len() > 0 && self.pos <= self.tokens.len()
    }

    /// A parser has a token, and stands inside its tokens, at the end at
    /// most.
    pub proof fn lemma_wf_bounds(&self)
        requires
            self.wf(),
        ensures
            self@.tokens.len() > 0,
            0 <= self@.pos <= self@.tokens.len(),
    {
    }

    /// True if this parser holds the tokens of `before`.
    spec fn kept(&self, before: &Parser) -> bool {
        self.wf() && self.tokens@ == before.tokens@
    }

    /// A parser at the start of `tokens`, of which there is at least one.
    pub fn new(tokens: Vec<Token>) -> (r: Parser)
        requires
            tokens.len() > 0,
        ensures
            r.wf(),
            r@ == (ParserView { tokens: tokens@, pos: 0 }),
    {
        Parser { tokens: tokens, pos: 0 }
    }

    /// Moves to the next token.
    fn advance(&mut self)
        requires
            old(self).wf(),
            old(self).pos < old(self).tokens.len(),
        ensures
            final(self).kept(old(self)),
            final(self).pos == old(self).pos + 1,
    {
        self.pos += 1;
    }

    /// True if the current token is of the kind `ty`.
    fn looking_at(&self, ty: TokenType) -> (r: bool)
        requires
            self.wf(),
        ensures
            r == looking_at(self.tokens@, self.pos as int, ty),
    {
        !self.eof() && self.peek().ty == ty
    }

    /// True if the current token is of one of the kinds `tys`.
    fn looking_at_any(&self, tys: &[TokenType]) -> (r: bool)
        requires
            self.wf(),
        ensures
            r == exists|i: int|
                0 <= i < tys@.len() && looking_at(self.tokens@, self.pos as int, #[trigger] tys@[i]),
    {
        let mut i: usize = 0;
        while i < tys.len()
            invariant
                self.wf(),
                i <= tys@.len(),
                forall|k: int|
                    0 <= k < i ==> !looking_at(self.tokens@, self.pos as int, #[trigger] tys@[k]),
            decreases tys.len() - i,
        {
            if self.looking_at(tys[i]) {
                return true;
            }
            i += 1;
        }
        false
    }

    /// True if every token has been read.
    fn eof(&self) -> (r: bool)
        ensures
            r == (self.pos >= self.tokens.len()),
    {
        self.pos >= self.tokens.len()
    }

    /// The current token; past the end, the last token.
    fn peek(&self) -> (r: &Token)
        requires
            self.wf(),
        ensures
            *r == current(self.tokens@, self.pos as int),
    {
        self.peek_at(self.pos)
    }

    /// The token before the current one.
    fn peek_prev(&self) -> (r: &Token)
        requires
            self.wf(),
            self.pos >= 1,
        ensures
            *r == self.tokens@[self.pos - 1],
    {
        self.peek_at(self.pos - 1)
    }

    /// The token at `offset`; once every token has been read, the last
    /// token.
    fn peek_at(&self, offset: usize) -> (r: &Token)
        requires
            self.wf(),
            offset < self.tokens.len() || self.pos >= self.tokens.len(),
            self.pos >= self.tokens.len() ==> offset == self.pos || offset == self.pos - 1,
        ensures
            *r == current(self.tokens@, offset as int),
    {
        if self.eof() {
            &self.tokens[self.tokens.len() - 1]
        } else {
            &self.tokens[offset]
        }
    }

    /// Where the current token stands.
    fn loc(&self) -> (r: Loc)
        requires
            self.wf(),
        ensures
            r == current(self.tokens@, self.pos as int).loc,
    {
        self.peek().loc.clone()
    }

    /// Reads a token of the kind `tok_ty`; fails with `err_ty` where
    /// another stands.
    fn eat_or(&mut self, tok_ty: TokenType, err_ty: ErrorType) -> (r: Result<(), Error>)
        requires
            old(self).wf(),
        ensures
            final(self).kept(old(self)),
            if looking_at(old(self).tokens@, old(self).pos as int, tok_ty) {
                r is Ok && final(self).pos == old(self).pos + 1
            } else {
                r is Err && r->Err_0@ == failure(
                    old(self).tokens@,
                    old(self).pos as int,
                    err_ty@,
                ).error && final(self).pos == old(self).pos
            },
    {
        if self.looking_at(tok_ty) {
            self.advance();
            Ok(())
        } else {
            err(err_ty, self.loc())
        }
    }

    /// Reads a token of the kind `expected`.
    fn eat(&mut self, expected: TokenType) -> (r: Result<(), Error>)
        requires
            old(self).wf(),
        ensures
            final(self).kept(old(self)),
            if looking_at(old(self).tokens@, old(self).pos as int, expected) {
                r is Ok && final(self).pos == old(self).pos + 1
            } else {
                r is Err && r->Err_0@ == unexpected(
                    old(self).tokens@,
                    old(self).pos as int,
                    expected,
                ).error && final(self).pos == old(self).pos
            },
    {
        if self.looking_at(expected) {
            self.advance();
            Ok(())
        } else {
            let actual = self.peek().ty;
            let mut wanted: Vec<TokenType> = Vec::new();
            wanted.push(expected);
            assert(wanted@ =~= seq![expected]);
            err(ErrorType::UnexpectedToken(actual, wanted), self.loc())
        }
    }

    /// Parses a name.
    fn parse_id(&mut self) -> (r: Result<Id, Error>)
        requires
            old(self).wf(),
        ensures
            final(self).kept(old(self)),
            parsed(r, final(self).pos as int) == id(old(self).tokens@, old(self).pos as int),
    {
        match self.eat(TokenType::Id) {
            Ok(()) => {},
            Err(e) => {
                return Err(e);
            },
        }
        copy_lexeme(self.peek_prev())
    }

    /// Parses one or more names with commas between them.
    fn parse_id_list(&mut self) -> (r: Result<Vec<Id>, Error>)
        requires
            old(self).wf(),
        ensures
            final(self).kept(old(self)),
            parsed(r, final(self).pos as int) == id_list(old(self).tokens@, old(self).pos as int),
    {
        let mut ids: Vec<Id> = Vec::new();
        let first = match self.parse_id() {
            Ok(name) => name,
            Err(e) => {
                return Err(e);
            },
        };
        let ghost first_name = first@;
        ids.push(first);
        assert(ids.deep_view() =~= seq![first_name]);
        while self.looking_at(TokenType::Comma)
            invariant
                self.kept(old(self)),
                id_list_from(self.tokens@, self.pos as int, ids.deep_view()) == id_list(
                    old(self).tokens@,
                    old(self).pos as int,
                ),
            decreases self.tokens.len() - self.pos,
        {
            self.advance();
            let next = match self.parse_id() {
                Ok(name) => name,
                Err(e) => {
                    return Err(e);
                },
            };
            let ghost before = ids.deep_view();
            let ghost name = next@;
            ids.push(next);
            assert(ids.deep_view() =~= before.push(name));
        }
        Ok(ids)
    }

    /// Parses a type.
    fn parse_ty(&mut self) -> (r: Result<Ty, Error>)
        requires
            old(self).wf(),
        ensures
            final(self).kept(old(self)),
            parsed(r, final(self).pos as int) == ty(old(self).tokens@, old(self).pos as int),
        decreases old(self).tokens.len() - old(self).pos,
    {
        if self.looking_at(TokenType::Id) {
            self.advance();
            match copy_lexeme(self.peek_prev()) {
                Ok(name) => Ok(Ty::Name(name)),
                Err(e) => Err(e),
            }
        } else if self.looking_at(TokenType::LBracket) {
            self.advance();
            if self.looking_at(TokenType::Int) || self.looking_at(TokenType::IntHex) {
                let size = match usize_lexeme(self.peek()) {
                    Ok(n) => n,
                    Err(e) => {
                        return Err(e);
                    },
                };
                self.advance();
                match self.eat(TokenType::RBracket) {
                    Ok(()) => {},
                    Err(e) => {
                        return Err(e);
                    },
                }
                match self.parse_ty() {
                    Ok(elem) => Ok(Ty::Array(size, Box::new(elem))),
                    Err(e) => Err(e),
                }
            } else {
                match self.eat(TokenType::RBracket) {
                    Ok(()) => {},
                    Err(e) => {
                        return Err(e);
                    },
                }
                match self.parse_ty() {
                    Ok(elem) => Ok(Ty::Slice(Box::new(elem))),
                    Err(e) => Err(e),
                }
            }
        } else {
            let actual = self.peek().ty;
            let mut wanted: Vec<TokenType> = Vec::new();
            wanted.push(TokenType::Id);
            wanted.push(TokenType::LBracket);
            assert(wanted@ =~= seq![TokenType::Id, TokenType::LBracket]);
            err(ErrorType::UnexpectedToken(actual, wanted), self.loc())
        }
    }

    /// Parses an expression.
    fn parse_expr(&mut self) -> (r: Result<Expr, Error>)
        requires
            old(self).wf(),
        ensures
            final(self).kept(old(self)),
            parsed(r, final(self).pos as int) == expr(old(self).tokens@, old(self).pos as int),
    {
        let loc = self.loc();
        if self.looking_at(TokenType::Id) {
            match self.parse_id() {
                Ok(name) => Ok(Expr::new(Box::new(ExprKind::Id(name)), loc)),
                Err(e) => Err(e),
            }
        } else if self.looking_at(TokenType::Int) {
            self.advance();
            match i64_lexeme(self.peek_prev()) {
                Ok(value) => Ok(Expr::new(Box::new(ExprKind::Int(value)), loc)),
                Err(e) => Err(e),
            }
        } else {
            err(ErrorType::ExpectedExpression, self.loc())
        }
    }

    /// Parses one or more expressions with commas between them.
    fn parse_expr_list(&mut self) -> (r: Result<Vec<Expr>, Error>)
        requires
            old(self).wf(),
        ensures
            final(self).kept(old(self)),
            parsed(r, final(self).pos as int) == expr_list(
                old(self).tokens@,
                old(self).pos as int,
            ),
    {
        let mut exprs: Vec<Expr> = Vec::new();
        let first = match self.parse_expr() {
            Ok(e) => e,
            Err(e) => {
                return Err(e);
            },
        };
        let ghost first_view = first@;
        exprs.push(first);
        assert(exprs.deep_view() =~= seq![first_view]);
        while self.looking_at(TokenType::Comma)
            invariant
                self.kept(old(self)),
                expr_list_from(self.tokens@, self.pos as int, exprs.deep_view()) == expr_list(
                    old(self).tokens@,
                    old(self).pos as int,
                ),
            decreases self.tokens.len() - self.pos,
        {
            self.advance();
            let next = match self.parse_expr() {
                Ok(e) => e,
                Err(e) => {
                    return Err(e);
                },
            };
            let ghost before = exprs.deep_view();
            let ghost view = next@;
            exprs.push(next);
            assert(exprs.deep_view() =~= before.push(view));
        }
        Ok(exprs)
    }

    /// True if a statement starts at the current token.
    fn starts_stmt(&self) -> (r: bool)
        requires
            self.wf(),
        ensures
            r == starts_stmt(self.tokens@, self.pos as int),
    {
        self.looking_at_any(
            &[TokenType::Print, TokenType::Println, TokenType::Break, TokenType::Continue],
        )
    }

    /// Parses one statement, which stands in the context `ctx`.
    ///
    /// A `break` or a `continue` that may not stand in `ctx` is an error,
    /// and so is a token that starts no statement; the parser then stays
    /// on that token.
    pub fn parse_stmt(&mut self, ctx: Context) -> (r: Result<Stmt, Error>)
        requires
            old(self).wf(),
        ensures
            final(self).wf(),
            final(self)@.tokens == old(self)@.tokens,
            parsed(r, final(self)@.pos) == stmt(old(self)@.tokens, old(self)@.pos, ctx),
            r is Err && !looking_at(old(self)@.tokens, old(self)@.pos, TokenType::Print)
                && !looking_at(old(self)@.tokens, old(self)@.pos, TokenType::Println)
                ==> final(self)@.pos == old(self)@.pos,
    {
        let loc = self.loc();
        if self.looking_at_any(&[TokenType::Print, TokenType::Println]) {
            let newline = self.looking_at(TokenType::Println);
            self.advance();
            match self.eat(TokenType::LParen) {
                Ok(()) => {},
                Err(e) => {
                    return Err(e);
                },
            }
            let exprs = match self.parse_expr_list() {
                Ok(exprs) => exprs,
                Err(e) => {
                    return Err(e);
                },
            };
            match self.eat(TokenType::RParen) {
                Ok(()) => {},
                Err(e) => {
                    return Err(e);
                },
            }
            Ok(Stmt { loc: loc, kind: Box::new(StmtKind::Print { exprs: exprs, newline: newline }) })
        } else if self.looking_at(TokenType::Break) {
            if ctx.in_switch || ctx.in_loop {
                self.advance();
                Ok(Stmt { loc: loc, kind: Box::new(StmtKind::Break) })
            } else {
                err(ErrorType::InvalidBreak, loc)
            }
        } else if self.looking_at(TokenType::Continue) {
            if ctx.in_loop {
                self.advance();
                Ok(Stmt { loc: loc, kind: Box::new(StmtKind::Continue) })
            } else {
                err(ErrorType::InvalidContinue, loc)
            }
        } else {
            err(ErrorType::Internal("no statement starts here".to_owned()), loc)
        }
    }

    /// Parses the statements of a block, which stand in the context `ctx`.
    fn parse_stmt_list(&mut self, ctx: Context) -> (r: Result<Vec<Stmt>, Error>)
        requires
            old(self).wf(),
        ensures
            final(self).kept(old(self)),
            parsed(r, final(self).pos as int) == stmt_list_from(
                old(self).tokens@,
                old(self).pos as int,
                ctx,
                Seq::empty(),
            ),
    {
        let mut stmts: Vec<Stmt> = Vec::new();
        assert(stmts.deep_view() =~= Seq::<StmtView>::empty());
        while self.starts_stmt()
            invariant
                self.kept(old(self)),
                stmt_list_from(self.tokens@, self.pos as int, ctx, stmts.deep_view())
                    == stmt_list_from(
                    old(self).tokens@,
                    old(self).pos as int,
                    ctx,
                    Seq::empty(),
                ),
            decreases self.tokens.len() - self.pos,
        {
            proof {
                lemma_stmt_advances(self.tokens@, self.pos as int, ctx);
            }
            let s = match self.parse_stmt(ctx) {
                Ok(s) => s,
                Err(e) => {
                    return Err(e);
                },
            };
            match self.eat(TokenType::Semi) {
                Ok(()) => {},
                Err(e) => {
                    return Err(e);
                },
            }
            let ghost before = stmts.deep_view();
            let ghost view = s@;
            stmts.push(s);
            assert(stmts.deep_view() =~= before.push(view));
        }
        Ok(stmts)
    }

    /// Parses the parameters of a function, up to the closing parenthesis.
    fn parse_param_list(&mut self) -> (r: Result<Vec<Param>, Error>)
        requires
            old(self).wf(),
        ensures
            final(self).kept(old(self)),
            parsed(r, final(self).pos as int) == param_list_from(
                old(self).tokens@,
                old(self).pos as int,
                true,
                Seq::empty(),
            ),
    {
        let mut is_first = true;
        let mut params: Vec<Param> = Vec::new();
        assert(params.deep_view() =~= Seq::<ParamView>::empty());
        while !self.looking_at(TokenType::RParen)
            invariant
                self.kept(old(self)),
                param_list_from(self.tokens@, self.pos as int, is_first, params.deep_view())
                    == param_list_from(
                    old(self).tokens@,
                    old(self).pos as int,
                    true,
                    Seq::empty(),
                ),
            decreases self.tokens.len() - self.pos,
        {
            if !is_first {
                match self.eat(TokenType::Comma) {
                    Ok(()) => {},
                    Err(e) => {
                        return Err(e);
                    },
                }
            }
            proof {
                lemma_id_list_advances(self.tokens@, self.pos as int);
            }
            let param_names = match self.parse_id_list() {
                Ok(names) => names,
                Err(e) => {
                    return Err(e);
                },
            };
            proof {
                lemma_ty_advances(self.tokens@, self.pos as int);
            }
            let ty = match self.parse_ty() {
                Ok(ty) => ty,
                Err(e) => {
                    return Err(e);
                },
            };
            let ghost before = params.deep_view();
            let mut i: usize = 0;
            while i < param_names.len()
                invariant
                    i <= param_names.len(),
                    params.deep_view() == before + params_of(
                        param_names.deep_view(),
                        ty@,
                    ).subrange(0, i as int),
                decreases param_names.len() - i,
            {
                let ghost so_far = params.deep_view();
                let p = Param::new(param_names[i].clone(), ty.clone());
                params.push(p);
                i += 1;
                assert(params.deep_view() =~= so_far.push(p@));
                assert(params.deep_view() =~= before + params_of(
                    param_names.deep_view(),
                    ty@,
                ).subrange(0, i as int));
            }
            assert(params.deep_view() =~= before + params_of(param_names.deep_view(), ty@));
            is_first = false;
        }
        Ok(params)
    }

    /// Parses a function.
    fn parse_func_decl(&mut self) -> (r: Result<FunDecl, Error>)
        requires
            old(self).wf(),
        ensures
            final(self).kept(old(self)),
            parsed(r, final(self).pos as int) == func_decl(
                old(self).tokens@,
                old(self).pos as int,
            ),
    {
        let loc = self.loc();
        match self.eat(TokenType::Func) {
            Ok(()) => {},
            Err(e) => {
                return Err(e);
            },
        }
        let func_name = match self.parse_id() {
            Ok(name) => name,
            Err(e) => {
                return Err(e);
            },
        };
        match self.eat_or(TokenType::LParen, ErrorType::ExpectedParamList) {
            Ok(()) => {},
            Err(e) => {
                return Err(e);
            },
        }
        let params = match self.parse_param_list() {
            Ok(params) => params,
            Err(e) => {
                return Err(e);
            },
        };
        match self.eat(TokenType::RParen) {
            Ok(()) => {},
            Err(e) => {
                return Err(e);
            },
        }
        let ret_ty = if self.looking_at(TokenType::LBrace) {
            Ty::Void
        } else {
            match self.parse_ty() {
                Ok(ty) => ty,
                Err(e) => {
                    return Err(e);
                },
            }
        };
        match self.eat(TokenType::LBrace) {
            Ok(()) => {},
            Err(e) => {
                return Err(e);
            },
        }
        let stmts = match self.parse_stmt_list(Context { in_loop: false, in_switch: false }) {
            Ok(stmts) => stmts,
            Err(e) => {
                return Err(e);
            },
        };
        match self.eat(TokenType::RBrace) {
            Ok(()) => {},
            Err(e) => {
                return Err(e);
            },
        }
        match self.eat(TokenType::Semi) {
            Ok(()) => {},
            Err(e) => {
                return Err(e);
            },
        }
        Ok(FunDecl::new(func_name, params, ret_ty, stmts, loc))
    }

    /// Parses one type declaration: a name and a type.
    fn parse_one_type_decl(&mut self) -> (r: Result<TypeDecl, Error>)
        requires
            old(self).wf(),
        ensures
            final(self).kept(old(self)),
            parsed(r, final(self).pos as int) == one_type_decl(
                old(self).tokens@,
                old(self).pos as int,
            ),
    {
        let loc = self.loc();
        let name = match self.parse_id() {
            Ok(name) => name,
            Err(e) => {
                return Err(e);
            },
        };
        match self.parse_ty() {
            Ok(ty) => Ok(TypeDecl::new(name, ty, loc)),
            Err(e) => err(ErrorType::InvalidTypeDecl, e.loc),
        }
    }

    /// Parses what `type` declares; the parser stands at `type`.
    #[verifier::loop_isolation(false)]
    fn parse_type_decl(&mut self) -> (r: Result<Vec<TypeDecl>, Error>)
        requires
            old(self).wf(),
            old(self).pos < old(self).tokens.len(),
        ensures
            final(self).kept(old(self)),
            parsed(r, final(self).pos as int) == type_decl(
                old(self).tokens@,
                old(self).pos as int,
            ),
    {
        let ty_loc = self.loc();
        self.advance();
        if self.looking_at(TokenType::Id) {
            match self.parse_one_type_decl() {
                Ok(decl) => {
                    let ghost view = decl@;
                    let mut decls: Vec<TypeDecl> = Vec::new();
                    decls.push(decl);
                    assert(decls.deep_view() =~= seq![view]);
                    Ok(decls)
                },
                Err(e) => Err(e),
            }
        } else if self.looking_at(TokenType::LParen) {
            self.advance();
            let ghost start = self.pos as int;
            let mut ty_decls: Vec<TypeDecl> = Vec::new();
            assert(ty_decls.deep_view() =~= Seq::<TypeDeclView>::empty());
            while self.looking_at(TokenType::Id)
                invariant
                    self.kept(old(self)),
                    type_specs_from(self.tokens@, self.pos as int, ty_decls.deep_view())
                        == type_specs_from(self.tokens@, start, Seq::empty()),
                decreases self.tokens.len() - self.pos,
            {
                proof {
                    lemma_ty_advances(self.tokens@, self.pos + 1);
                }
                let decl = match self.parse_one_type_decl() {
                    Ok(decl) => decl,
                    Err(e) => {
                        return Err(e);
                    },
                };
                match self.eat(TokenType::Semi) {
                    Ok(()) => {},
                    Err(e) => {
                        return Err(e);
                    },
                }
                let ghost before = ty_decls.deep_view();
                let ghost view = decl@;
                ty_decls.push(decl);
                assert(ty_decls.deep_view() =~= before.push(view));
            }
            if ty_decls.len() == 0 {
                return err(ErrorType::InvalidTypeDecl, ty_loc);
            }
            match self.eat(TokenType::RParen) {
                Ok(()) => Ok(ty_decls),
                Err(e) => Err(e),
            }
        } else {
            err(ErrorType::InvalidTypeDecl, ty_loc)
        }
    }

    /// Parses one variable specification of the declaration that starts
    /// at `loc`.
    fn parse_var_spec(&mut self, loc: &Loc) -> (r: Result<Vec<VarDecl>, Error>)
        requires
            old(self).wf(),
        ensures
            final(self).kept(old(self)),
            parsed(r, final(self).pos as int) == var_spec(
                old(self).tokens@,
                old(self).pos as int,
                loc@,
            ),
    {
        let vnames = match self.parse_id_list() {
            Ok(names) => names,
            Err(e) => {
                return Err(e);
            },
        };
        let ty_opt = if self.looking_at_any(
            &[TokenType::Id, TokenType::LBracket, TokenType::Struct],
        ) {
            match self.parse_ty() {
                Ok(ty) => Some(ty),
                Err(e) => {
                    return Err(e);
                },
            }
        } else {
            None
        };
        let init_vec = if self.looking_at(TokenType::Assign) {
            self.advance();
            match self.parse_expr_list() {
                Ok(exprs) => exprs,
                Err(e) => {
                    return Err(e);
                },
            }
        } else {
            let none: Vec<Expr> = Vec::new();
            assert(none.deep_view() =~= Seq::<ExprView>::empty());
            none
        };
        let n = init_vec.len();
        if ty_opt.is_none() && n == 0 {
            err(ErrorType::InvalidVarDecl, loc.clone())
        } else if n != 0 && n != vnames.len() {
            err(ErrorType::VarExprLengthMismatch, loc.clone())
        } else {
            Ok(construct_var_decls(vnames, ty_opt, init_vec, loc))
        }
    }

    /// Parses what `var` declares; the parser stands at `var`.
    #[verifier::loop_isolation(false)]
    fn parse_var_decl(&mut self) -> (r: Result<Vec<VarDecl>, Error>)
        requires
            old(self).wf(),
            old(self).pos < old(self).tokens.len(),
        ensures
            final(self).kept(old(self)),
            parsed(r, final(self).pos as int) == var_decl(
                old(self).tokens@,
                old(self).pos as int,
            ),
    {
        let var_loc = self.loc();
        self.advance();
        if self.looking_at(TokenType::Id) {
            self.parse_var_spec(&var_loc)
        } else if self.looking_at(TokenType::LParen) {
            self.advance();
            let ghost start = self.pos as int;
            let mut decls: Vec<VarDecl> = Vec::new();
            assert(decls.deep_view() =~= Seq::<VarDeclView>::empty());
            while self.looking_at(TokenType::Id)
                invariant
                    self.kept(old(self)),
                    var_specs_from(self.tokens@, self.pos as int, var_loc@, decls.deep_view())
                        == var_specs_from(self.tokens@, start, var_loc@, Seq::empty()),
                decreases self.tokens.len() - self.pos,
            {
                proof {
                    lemma_var_spec_advances(self.tokens@, self.pos as int, var_loc@);
                }
                let mut more = match self.parse_var_spec(&var_loc) {
                    Ok(more) => more,
                    Err(e) => {
                        return Err(e);
                    },
                };
                match self.eat(TokenType::Semi) {
                    Ok(()) => {},
                    Err(e) => {
                        return Err(e);
                    },
                }
                let ghost before = decls.deep_view();
                let ghost added = more.deep_view();
                decls.append(&mut more);
                assert(decls.deep_view() =~= before + added);
            }
            if decls.len() == 0 {
                return err(ErrorType::InvalidVarDecl, var_loc);
            }
            match self.eat(TokenType::RParen) {
                Ok(()) => Ok(decls),
                Err(e) => Err(e),
            }
        } else {
            err(ErrorType::InvalidVarDecl, self.loc())
        }
    }

    /// Parses one declaration at the top of a file. It may declare several
    /// things, so it gives a list. Where no declaration starts, the parser
    /// fails and stays on the token it stands on.
    pub fn parse_toplevel_decl(&mut self) -> (r: Result<Vec<TopLevelDecl>, Error>)
        requires
            old(self).wf(),
        ensures
            final(self).wf(),
            final(self)@.tokens == old(self)@.tokens,
            parsed(r, final(self)@.pos) == toplevel_decl(old(self)@.tokens, old(self)@.pos),
            !starts_decl(old(self)@.tokens, old(self)@.pos) ==> final(self)@.pos == old(
                self,
            )@.pos,
    {
        if self.looking_at(TokenType::Var) {
            let var_decls = match self.parse_var_decl() {
                Ok(decls) => decls,
                Err(e) => {
                    return Err(e);
                },
            };
            let ghost views = var_decls.deep_view();
            let mut rest = reversed(var_decls);
            let mut top_decls: Vec<TopLevelDecl> = Vec::new();
            while rest.len() > 0
                invariant
                    top_decls@.len() + rest@.len() == views.len(),
                    forall|i: int|
                        0 <= i < rest@.len() ==> (#[trigger] rest@[i])@ == views[views.len() - 1
                            - i],
                    forall|i: int|
                        0 <= i < top_decls@.len() ==> (#[trigger] top_decls@[i])@
                            == TopLevelDeclView::VarDecl(views[i]),
                decreases rest@.len(),
            {
                let vd = rest.pop().unwrap();
                top_decls.push(TopLevelDecl::VarDecl(vd));
            }
            assert(top_decls.deep_view() =~= views.map_values(
                |d: VarDeclView| TopLevelDeclView::VarDecl(d),
            ));
            match self.eat(TokenType::Semi) {
                Ok(()) => Ok(top_decls),
                Err(e) => Err(e),
            }
        } else if self.looking_at(TokenType::Type) {
            let ty_decls = match self.parse_type_decl() {
                Ok(decls) => decls,
                Err(e) => {
                    return Err(e);
                },
            };
            let ghost views = ty_decls.deep_view();
            let mut rest = reversed(ty_decls);
            let mut top_decls: Vec<TopLevelDecl> = Vec::new();
            while rest.len() > 0
                invariant
                    top_decls@.len() + rest@.len() == views.len(),
                    forall|i: int|
                        0 <= i < rest@.len() ==> (#[trigger] rest@[i])@ == views[views.len() - 1
                            - i],
                    forall|i: int|
                        0 <= i < top_decls@.len() ==> (#[trigger] top_decls@[i])@
                            == TopLevelDeclView::TypeDecl(views[i]),
                decreases rest@.len(),
            {
                let td = rest.pop().unwrap();
                top_decls.push(TopLevelDecl::TypeDecl(td));
            }
            assert(top_decls.deep_view() =~= views.map_values(
                |d: TypeDeclView| TopLevelDeclView::TypeDecl(d),
            ));
            match self.eat(TokenType::Semi) {
                Ok(()) => Ok(top_decls),
                Err(e) => Err(e),
            }
        } else if self.looking_at(TokenType::Func) {
            match self.parse_func_decl() {
                Ok(func_decl) => {
                    let ghost view = func_decl@;
                    let mut top_decls: Vec<TopLevelDecl> = Vec::new();
                    top_decls.push(TopLevelDecl::FunDecl(func_decl));
                    assert(top_decls.deep_view() =~= seq![TopLevelDeclView::FunDecl(view)]);
                    Ok(top_decls)
                },
                Err(e) => Err(e),
            }
        } else {
            err(ErrorType::ExpectedDeclaration, self.loc())
        }
    }

    /// Parses a whole file.
    ///
    /// The file is `package`, a name and a semicolon, then declarations of
    /// variables, types and functions, then the end-of-file token. The
    /// first token that does not fit stops the parser, and nothing of the
    /// tree is returned then.
    #[verifier::loop_isolation(false)]
    pub fn parse(&mut self) -> (r: Result<Ast, Error>)
        requires
            old(self).wf(),
        ensures
            final(self).wf(),
            final(self)@.tokens == old(self)@.tokens,
            parsed(r, final(self)@.pos) == file_at(old(self)@.tokens, old(self)@.pos),
    {
        let loc = self.loc();
        match self.eat_or(TokenType::Package, ErrorType::MissingPackageDeclaration) {
            Ok(()) => {},
            Err(e) => {
                return Err(e);
            },
        }
        match self.eat_or(TokenType::Id, ErrorType::MissingPackageName) {
            Ok(()) => {},
            Err(e) => {
                return Err(e);
            },
        }
        let pname = match copy_lexeme(self.peek_prev()) {
            Ok(name) => name,
            Err(e) => {
                return Err(e);
            },
        };
        match self.eat(TokenType::Semi) {
            Ok(()) => {},
            Err(e) => {
                return Err(e);
            },
        }
        let mut decls: Vec<TopLevelDecl> = Vec::new();
        assert(decls.deep_view() =~= Seq::<TopLevelDeclView>::empty());
        while self.looking_at_any(&[TokenType::Var, TokenType::Func, TokenType::Type])
            invariant
                self.kept(old(self)),
                decls_from(self.tokens@, self.pos as int, decls.deep_view()) == decls_from(
                    self.tokens@,
                    old(self).pos + 3,
                    Seq::empty(),
                ),
            decreases self.tokens.len() - self.pos,
        {
            proof {
                lemma_toplevel_decl_advances(self.tokens@, self.pos as int);
            }
            let mut more = match self.parse_toplevel_decl() {
                Ok(more) => more,
                Err(e) => {
                    return Err(e);
                },
            };
            let ghost before = decls.deep_view();
            let ghost added = more.deep_view();
            decls.append(&mut more);
            assert(decls.deep_view() =~= before + added);
        }
        match self.eat(TokenType::Eof) {
            Ok(()) => {},
            Err(e) => {
                return Err(e);
            },
        }
        Ok(Ast::new(pname, decls, loc))
    }
}

} // verus!
