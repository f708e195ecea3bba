//! The syntax tree that the parser builds: declarations, statements,
//! expressions and types, each with its view for contracts. Nothing in it
//! is resolved or typed yet.

use vstd::prelude::*;
use vstd::std_specs::vec::axiom_vec_index_decreases;
use crate::loc::{Loc, LocView};

verus! {

/// A name, as it is written in the source.
pub type Id = String;

/// A whole source file.
#[derive(Debug)]
pub struct Ast {
    pub package_name: Id,
    pub declarations: Vec<TopLevelDecl>,
    pub loc: Loc,
}

/// What may be declared at the top of a file.
#[derive(Debug)]
pub enum TopLevelDecl {
    FunDecl(FunDecl),
    TypeDecl(TypeDecl),
    VarDecl(VarDecl),
}

/// The declaration of a function.
#[derive(Debug)]
pub struct FunDecl {
    pub name: Id,
    pub params: Vec<Param>,
    /// `Ty::Void` where the function returns nothing.
    pub return_ty: Ty,
    pub body: Vec<Stmt>,
    pub loc: Loc,
}

/// The declaration of a name for a type.
#[derive(Debug)]
pub struct TypeDecl {
    pub name: Id,
    pub ty: Ty,
    pub loc: Loc,
}

/// The declaration of one variable, with its type, its initial value, or
/// both.
#[derive(Debug)]
pub struct VarDecl {
    pub name: Id,
    pub ty: Option<Ty>,
    pub init: Option<Expr>,
    pub loc: Loc,
}

/// A statement and where it starts.
#[derive(Debug)]
pub struct Stmt {
    pub kind: Box<StmtKind>,
    pub loc: Loc,
}

#[derive(Debug)]
#[allow(inconsistent_fields)]
pub enum StmtKind {
    Empty,
    Break,
    Continue,
    Return { expr: Option<Expr> },
    Print { exprs: Vec<Expr>, newline: bool },
    VarDecl { decl: VarDecl },
    TypeDecl { decl: TypeDecl },
    ShortDecl { ids: Vec<Id>, exprs: Vec<Expr> },
    Assign { lvalues: Vec<LValue>, exprs: Vec<Expr> },
    AssignOp { lvalue: LValue, expr: Expr, op: BinOp },
    Incr { lvalue: LValue },
    Decr { lvalue: LValue },
    Call { id: Id, args: Vec<Expr> },
    Block { stmts: Vec<Stmt> },
    If(IfStmt),
    ForInfinite { stmts: Vec<Stmt> },
    ForWhile { expr: Expr, stmts: Vec<Stmt> },
    For { init: Option<Stmt>, cond: Option<Expr>, update: Option<Stmt>, stmts: Vec<Stmt> },
    Switch {
        init: Option<Stmt>,
        expr: Option<Expr>,
        cases: Vec<(Vec<Expr>, Vec<Stmt>)>,
        default: Vec<Stmt>,
    },
}

#[derive(Debug)]
pub enum IfStmt {
    If { init: Option<Stmt>, cond: Expr, stmts: Vec<Stmt> },
    IfElse { init: Option<Stmt>, cond: Expr, then_stmts: Vec<Stmt>, else_stmts: Vec<Stmt> },
    IfElseIf { init: Option<Stmt>, cond: Expr, then_stmts: Vec<Stmt>, else_if: Box<IfStmt> },
}

/// What may stand on the left of an assignment.
#[derive(Debug)]
pub enum LValue {
    Id(Id),
    Blank,
    ArrayAccess { lvalue: Box<LValue>, expr: Expr },
    StructAccess { lvalue: Box<LValue>, field: Id },
}

#[derive(Debug, Clone, Copy, PartialEq, Eq, Structural)]
pub enum BinOp {
    Add,
    Sub,
    Mul,
    Div,
    Mod,
    BitAnd,
    BitOr,
    And,
    Or,
    Lt,
    Le,
    Gt,
    Ge,
    Eq,
    Ne,
    LShift,
    RShift,
}

#[derive(Debug, Clone, Copy, PartialEq, Eq, Structural)]
pub enum UnaryOp {
    Not,
    Bitnot,
    BitClear,
    Negate,
}

/// An expression and where it starts.
#[derive(Debug)]
pub struct Expr {
    pub expr_kind: Box<ExprKind>,
    pub loc: Loc,
}

#[derive(Debug)]
#[allow(inconsistent_fields)]
pub enum ExprKind {
    // Base expressions
    Id(Id),
    Int(i64),
    /// A float literal, as it is written.
    Float64(String),
    String(String),
    Rune(char),
    // Compound expressions
    UnaryOp { op: UnaryOp, expr: Box<Expr> },
    BinaryOp { op: BinOp, expr1: Box<Expr>, expr2: Box<Expr> },
    Append { slice: Box<Expr>, element: Box<Expr> },
    /// A call of a function, or a cast written like one.
    Call { func: Id, args: Vec<Expr> },
    Cast { ty: Ty, expr: Box<Expr> },
    IndexAccess { array: Box<Expr>, index: Box<Expr> },
    FieldAccess { record: Box<Expr>, field: Id },
}

/// A type, as it is written.
#[derive(Debug)]
pub enum Ty {
    Name(Id),
    Slice(Box<Ty>),
    Array(usize, Box<Ty>),
    Struct(Vec<Param>),
    Func(Vec<Ty>, Box<Ty>),
    /// No type of the language: what a function without a result returns.
    Void,
}

/// A parameter of a function, or a field of a struct: a name and its type.
#[derive(Debug)]
pub struct Param {
    pub name: Id,
    pub ty: Box<Ty>,
}

// The views. Each tree has a view of the same shape, in which a string is
// the sequence of its characters, a vector the sequence of the views of its
// elements, and a machine integer a number. Contracts speak of the views.

/// The view of a `Ty`.
pub enum TyView {
    Name(Seq<char>),
    Slice(Box<TyView>),
    Array(nat, Box<TyView>),
    Struct(Seq<ParamView>),
    Func(Seq<TyView>, Box<TyView>),
    Void,
}

pub struct ParamView {
    pub name: Seq<char>,
    pub ty: TyView,
}

pub struct ExprView {
    pub kind: ExprKindView,
    pub loc: LocView,
}

#[allow(inconsistent_fields)]
pub enum ExprKindView {
    Id(Seq<char>),
    Int(int),
    Float64(Seq<char>),
    String(Seq<char>),
    Rune(char),
    UnaryOp { op: UnaryOp, expr: Box<ExprView> },
    BinaryOp { op: BinOp, expr1: Box<ExprView>, expr2: Box<ExprView> },
    Append { slice: Box<ExprView>, element: Box<ExprView> },
    Call { func: Seq<char>, args: Seq<ExprView> },
    Cast { ty: TyView, expr: Box<ExprView> },
    IndexAccess { array: Box<ExprView>, index: Box<ExprView> },
    FieldAccess { record: Box<ExprView>, field: Seq<char> },
}

pub enum LValueView {
    Id(Seq<char>),
    Blank,
    ArrayAccess { lvalue: Box<LValueView>, expr: ExprView },
    StructAccess { lvalue: Box<LValueView>, field: Seq<char> },
}

pub struct VarDeclView {
    pub name: Seq<char>,
    pub ty: Option<TyView>,
    pub init: Option<ExprView>,
    pub loc: LocView,
}

pub struct TypeDeclView {
    pub name: Seq<char>,
    pub ty: TyView,
    pub loc: LocView,
}

pub struct StmtView {
    pub kind: StmtKindView,
    pub loc: LocView,
}

#[allow(inconsistent_fields)]
pub enum StmtKindView {
    Empty,
    Break,
    Continue,
    Return { expr: Option<ExprView> },
    Print { exprs: Seq<ExprView>, newline: bool },
    VarDecl { decl: VarDeclView },
    TypeDecl { decl: TypeDeclView },
    ShortDecl { ids: Seq<Seq<char>>, exprs: Seq<ExprView> },
    Assign { lvalues: Seq<LValueView>, exprs: Seq<ExprView> },
    AssignOp { lvalue: LValueView, expr: ExprView, op: BinOp },
    Incr { lvalue: LValueView },
    Decr { lvalue: LValueView },
    Call { id: Seq<char>, args: Seq<ExprView> },
    Block { stmts: Seq<StmtView> },
    If(IfStmtView),
    ForInfinite { stmts: Seq<StmtView> },
    ForWhile { expr: ExprView, stmts: Seq<StmtView> },
    For {
        init: Option<Box<StmtView>>,
        cond: Option<ExprView>,
        update: Option<Box<StmtView>>,
        stmts: Seq<StmtView>,
    },
    Switch {
        init: Option<Box<StmtView>>,
        expr: Option<ExprView>,
        cases: Seq<(Seq<ExprView>, Seq<StmtView>)>,
        default: Seq<StmtView>,
    },
}

pub enum IfStmtView {
    If { init: Option<Box<StmtView>>, cond: ExprView, stmts: Seq<StmtView> },
    IfElse {
        init: Option<Box<StmtView>>,
        cond: ExprView,
        then_stmts: Seq<StmtView>,
        else_stmts: Seq<StmtView>,
    },
    IfElseIf {
        init: Option<Box<StmtView>>,
        cond: ExprView,
        then_stmts: Seq<StmtView>,
        else_if: Box<IfStmtView>,
    },
}

pub struct FunDeclView {
    pub name: Seq<char>,
    pub params: Seq<ParamView>,
    pub return_ty: TyView,
    pub body: Seq<StmtView>,
    pub loc: LocView,
}

pub enum TopLevelDeclView {
    FunDecl(FunDeclView),
    TypeDecl(TypeDeclView),
    VarDecl(VarDeclView),
}

pub struct AstView {
    pub package_name: Seq<char>,
    pub declarations: Seq<TopLevelDeclView>,
    pub loc: LocView,
}

// The functions that give the views. Those of the trees that hold trees of
// their own kind are written out, so that they are seen to end; `view` and
// `deep_view` of each type go through them.

pub open spec fn ty_view(t: Ty) -> TyView
    decreases t,
{
    match t {
        Ty::Name(name) => TyView::Name(name@),
        Ty::Slice(elem) => TyView::Slice(Box::new(ty_view(*elem))),
        Ty::Array(size, elem) => TyView::Array(size as nat, Box::new(ty_view(*elem))),
        Ty::Struct(fields) => TyView::Struct(
            Seq::new(
                fields.len() as nat,
                |i: int|
                    if 0 <= i < fields.len() {
                        param_view(fields[i])
                    } else {
                        arbitrary()
                    },
            ),
        ),
        Ty::Func(params, result) => TyView::Func(
            Seq::new(
                params.len() as nat,
                |i: int|
                    if 0 <= i < params.len() {
                        ty_view(params[i])
                    } else {
                        arbitrary()
                    },
            ),
            Box::new(ty_view(*result)),
        ),
        Ty::Void => TyView::Void,
    }
}

pub open spec fn param_view(p: Param) -> ParamView
    decreases p,
{
    ParamView { name: p.name@, ty: ty_view(*p.ty) }
}

pub open spec fn expr_view(e: Expr) -> ExprView
    decreases e,
{
    ExprView { kind: expr_kind_view(*e.expr_kind), loc: e.loc@ }
}

pub open spec fn exprs_view(es: Vec<Expr>) -> Seq<ExprView>
    decreases es,
{
    Seq::new(
        es.len() as nat,
        |i: int|
            if 0 <= i < es.len() {
                expr_view(es[i])
            } else {
                arbitrary()
            },
    )
}

pub open spec fn expr_kind_view(k: ExprKind) -> ExprKindView
    decreases k,
{
    match k {
        ExprKind::Id(name) => ExprKindView::Id(name@),
        ExprKind::Int(value) => ExprKindView::Int(value as int),
        ExprKind::Float64(literal) => ExprKindView::Float64(literal@),
        ExprKind::String(content) => ExprKindView::String(content@),
        ExprKind::Rune(c) => ExprKindView::Rune(c),
        ExprKind::UnaryOp { op, expr } => ExprKindView::UnaryOp {
            op: op,
            expr: Box::new(expr_view(*expr)),
        },
        ExprKind::BinaryOp { op, expr1, expr2 } => ExprKindView::BinaryOp {
            op: op,
            expr1: Box::new(expr_view(*expr1)),
            expr2: Box::new(expr_view(*expr2)),
        },
        ExprKind::Append { slice, element } => ExprKindView::Append {
            slice: Box::new(expr_view(*slice)),
            element: Box::new(expr_view(*element)),
        },
        ExprKind::Call { func, args } => ExprKindView::Call { func: func@, args: exprs_view(args) },
        ExprKind::Cast { ty, expr } => ExprKindView::Cast {
            ty: ty_view(ty),
            expr: Box::new(expr_view(*expr)),
        },
        ExprKind::IndexAccess { array, index } => ExprKindView::IndexAccess {
            array: Box::new(expr_view(*array)),
            index: Box::new(expr_view(*index)),
        },
        ExprKind::FieldAccess { record, field } => ExprKindView::FieldAccess {
            record: Box::new(expr_view(*record)),
            field: field@,
        },
    }
}

pub open spec fn lvalue_view(l: LValue) -> LValueView
    decreases l,
{
    match l {
        LValue::Id(name) => LValueView::Id(name@),
        LValue::Blank => LValueView::Blank,
        LValue::ArrayAccess { lvalue, expr } => LValueView::ArrayAccess {
            lvalue: Box::new(lvalue_view(*lvalue)),
            expr: expr_view(expr),
        },
        LValue::StructAccess { lvalue, field } => LValueView::StructAccess {
            lvalue: Box::new(lvalue_view(*lvalue)),
            field: field@,
        },
    }
}

pub open spec fn option_ty_view(t: Option<Ty>) -> Option<TyView> {
    match t {
        Some(t) => Some(ty_view(t)),
        None => None,
    }
}

pub open spec fn option_expr_view(e: Option<Expr>) -> Option<ExprView> {
    match e {
        Some(e) => Some(expr_view(e)),
        None => None,
    }
}

pub open spec fn var_decl_view(d: VarDecl) -> VarDeclView {
    VarDeclView {
        name: d.name@,
        ty: option_ty_view(d.ty),
        init: option_expr_view(d.init),
        loc: d.loc@,
    }
}

pub open spec fn type_decl_view(d: TypeDecl) -> TypeDeclView {
    TypeDeclView { name: d.name@, ty: ty_view(d.ty), loc: d.loc@ }
}

pub open spec fn stmt_view(s: Stmt) -> StmtView
    decreases s,
{
    StmtView { kind: stmt_kind_view(*s.kind), loc: s.loc@ }
}

pub open spec fn stmts_view(ss: Vec<Stmt>) -> Seq<StmtView>
    decreases ss,
{
    Seq::new(
        ss.len() as nat,
        |i: int|
            if 0 <= i < ss.len() {
                stmt_view(ss[i])
            } else {
                arbitrary()
            },
    )
}

pub open spec fn option_stmt_view(s: Option<Stmt>) -> Option<Box<StmtView>>
    decreases s,
{
    match s {
        Some(s) => Some(Box::new(stmt_view(s))),
        None => None,
    }
}

pub open spec fn stmt_kind_view(k: StmtKind) -> StmtKindView
    decreases k,
{
    match k {
        StmtKind::Empty => StmtKindView::Empty,
        StmtKind::Break => StmtKindView::Break,
        StmtKind::Continue => StmtKindView::Continue,
        StmtKind::Return { expr } => StmtKindView::Return { expr: option_expr_view(expr) },
        StmtKind::Print { exprs, newline } => StmtKindView::Print {
            exprs: exprs.deep_view(),
            newline: newline,
        },
        StmtKind::VarDecl { decl } => StmtKindView::VarDecl { decl: var_decl_view(decl) },
        StmtKind::TypeDecl { decl } => StmtKindView::TypeDecl { decl: type_decl_view(decl) },
        StmtKind::ShortDecl { ids, exprs } => StmtKindView::ShortDecl {
            ids: ids.deep_view(),
            exprs: exprs.deep_view(),
        },
        StmtKind::Assign { lvalues, exprs } => StmtKindView::Assign {
            lvalues: lvalues.deep_view(),
            exprs: exprs.deep_view(),
        },
        StmtKind::AssignOp { lvalue, expr, op } => StmtKindView::AssignOp {
            lvalue: lvalue_view(lvalue),
            expr: expr_view(expr),
            op: op,
        },
        StmtKind::Incr { lvalue } => StmtKindView::Incr { lvalue: lvalue_view(lvalue) },
        StmtKind::Decr { lvalue } => StmtKindView::Decr { lvalue: lvalue_view(lvalue) },
        StmtKind::Call { id, args } => StmtKindView::Call { id: id@, args: args.deep_view() },
        StmtKind::Block { stmts } => StmtKindView::Block { stmts: stmts_view(stmts) },
        StmtKind::If(if_stmt) => StmtKindView::If(if_stmt_view(if_stmt)),
        StmtKind::ForInfinite { stmts } => StmtKindView::ForInfinite { stmts: stmts_view(stmts) },
        StmtKind::ForWhile { expr, stmts } => StmtKindView::ForWhile {
            expr: expr_view(expr),
            stmts: stmts_view(stmts),
        },
        StmtKind::For { init, cond, update, stmts } => StmtKindView::For {
            init: option_stmt_view(init),
            cond: option_expr_view(cond),
            update: option_stmt_view(update),
            stmts: stmts_view(stmts),
        },
        StmtKind::Switch { init, expr, cases, default } => StmtKindView::Switch {
            init: option_stmt_view(init),
            expr: option_expr_view(expr),
            cases: Seq::new(
                cases.len() as nat,
                |i: int|
                    if 0 <= i < cases.len() {
                        (cases[i].0.deep_view(), stmts_view(cases[i].1))
                    } else {
                        arbitrary()
                    },
            ),
            default: stmts_view(default),
        },
    }
}

pub open spec fn if_stmt_view(s: IfStmt) -> IfStmtView
    decreases s,
{
    match s {
        IfStmt::If { init, cond, stmts } => IfStmtView::If {
            init: option_stmt_view(init),
            cond: expr_view(cond),
            stmts: stmts_view(stmts),
        },
        IfStmt::IfElse { init, cond, then_stmts, else_stmts } => IfStmtView::IfElse {
            init: option_stmt_view(init),
            cond: expr_view(cond),
            then_stmts: stmts_view(then_stmts),
            else_stmts: stmts_view(else_stmts),
        },
        IfStmt::IfElseIf { init, cond, then_stmts, else_if } => IfStmtView::IfElseIf {
            init: option_stmt_view(init),
            cond: expr_view(cond),
            then_stmts: stmts_view(then_stmts),
            else_if: Box::new(if_stmt_view(*else_if)),
        },
    }
}

pub open spec fn fun_decl_view(d: FunDecl) -> FunDeclView {
    FunDeclView {
        name: d.name@,
        params: d.params.deep_view(),
        return_ty: ty_view(d.return_ty),
        body: d.body.deep_view(),
        loc: d.loc@,
    }
}

pub open spec fn top_level_decl_view(d: TopLevelDecl) -> TopLevelDeclView {
    match d {
        TopLevelDecl::FunDecl(f) => TopLevelDeclView::FunDecl(fun_decl_view(f)),
        TopLevelDecl::TypeDecl(t) => TopLevelDeclView::TypeDecl(type_decl_view(t)),
        TopLevelDecl::VarDecl(v) => TopLevelDeclView::VarDecl(var_decl_view(v)),
    }
}

impl View for LValue {
    type V = LValueView;

    open spec fn view(&self) -> LValueView {
        lvalue_view(*self)
    }
}

impl DeepView for LValue {
    type V = LValueView;

    open spec fn deep_view(&self) -> LValueView {
        self.view()
    }
}

impl View for Ty {
    type V = TyView;

    open spec fn view(&self) -> TyView {
        ty_view(*self)
    }
}

impl DeepView for Ty {
    type V = TyView;

    open spec fn deep_view(&self) -> TyView {
        self.view()
    }
}

impl View for Param {
    type V = ParamView;

    open spec fn view(&self) -> ParamView {
        param_view(*self)
    }
}

impl DeepView for Param {
    type V = ParamView;

    open spec fn deep_view(&self) -> ParamView {
        self.view()
    }
}

impl View for Expr {
    type V = ExprView;

    open spec fn view(&self) -> ExprView {
        expr_view(*self)
    }
}

impl DeepView for Expr {
    type V = ExprView;

    open spec fn deep_view(&self) -> ExprView {
        self.view()
    }
}

impl View for Stmt {
    type V = StmtView;

    open spec fn view(&self) -> StmtView {
        stmt_view(*self)
    }
}

impl DeepView for Stmt {
    type V = StmtView;

    open spec fn deep_view(&self) -> StmtView {
        self.view()
    }
}

impl View for VarDecl {
    type V = VarDeclView;

    open spec fn view(&self) -> VarDeclView {
        var_decl_view(*self)
    }
}

impl DeepView for VarDecl {
    type V = VarDeclView;

    open spec fn deep_view(&self) -> VarDeclView {
        self.view()
    }
}

impl View for TypeDecl {
    type V = TypeDeclView;

    open spec fn view(&self) -> TypeDeclView {
        type_decl_view(*self)
    }
}

impl DeepView for TypeDecl {
    type V = TypeDeclView;

    open spec fn deep_view(&self) -> TypeDeclView {
        self.view()
    }
}

impl View for FunDecl {
    type V = FunDeclView;

    open spec fn view(&self) -> FunDeclView {
        fun_decl_view(*self)
    }
}

impl DeepView for FunDecl {
    type V = FunDeclView;

    open spec fn deep_view(&self) -> FunDeclView {
        self.view()
    }
}

impl View for TopLevelDecl {
    type V = TopLevelDeclView;

    open spec fn view(&self) -> TopLevelDeclView {
        top_level_decl_view(*self)
    }
}

impl DeepView for TopLevelDecl {
    type V = TopLevelDeclView;

    open spec fn deep_view(&self) -> TopLevelDeclView {
        self.view()
    }
}

impl View for Ast {
    type V = AstView;

    open spec fn view(&self) -> AstView {
        AstView {
            package_name: self.package_name@,
            declarations: self.declarations.deep_view(),
            loc: self.loc@,
        }
    }
}

impl DeepView for Ast {
    type V = AstView;

    open spec fn deep_view(&self) -> AstView {
        self.view()
    }
}

impl Ast {
    pub fn new(name: Id, decls: Vec<TopLevelDecl>, loc: Loc) -> (r: Ast)
        ensures
            r == (Ast { package_name: name, declarations: decls, loc: loc }),
    {
        Ast { package_name: name, declarations: decls, loc: loc }
    }
}

impl FunDecl {
    pub fn new(name: Id, params: Vec<Param>, return_ty: Ty, body: Vec<Stmt>, loc: Loc) -> (r:
        FunDecl)
        ensures
            r == (FunDecl { name: name, params: params, return_ty: return_ty, body: body, loc: loc }),
    {
        FunDecl { name: name, params: params, return_ty: return_ty, body: body, loc: loc }
    }
}

impl TypeDecl {
    pub fn new(name: Id, ty: Ty, loc: Loc) -> (r: TypeDecl)
        ensures
            r == (TypeDecl { name: name, ty: ty, loc: loc }),
    {
        TypeDecl { name: name, ty: ty, loc: loc }
    }
}

impl VarDecl {
    /// What every declaration of a variable holds: a type, an initial
    /// value, or both.
    pub open spec fn wf(&self) -> bool {
        self.ty is Some || self.init is Some
    }

    /// The declaration of `name` with the type `ty`, the initial value
    /// `init`, or both: one of the two is to be there.
    pub fn new(name: Id, ty: Option<Ty>, init: Option<Expr>, loc: Loc) -> (r: VarDecl)
        requires
            ty is Some || init is Some,
        ensures
            r == (VarDecl { name: name, ty: ty, init: init, loc: loc }),
            r.wf(),
    {
        VarDecl { name: name, ty: ty, init: init, loc: loc }
    }
}

impl Expr {
    pub fn new(kind: Box<ExprKind>, loc: Loc) -> (r: Expr)
        ensures
            r == (Expr { expr_kind: kind, loc: loc }),
    {
        Expr { expr_kind: kind, loc: loc }
    }
}

/// A copy of `t`.
fn clone_ty(t: &Ty) -> (r: Ty)
    ensures
        ty_view(r) == ty_view(*t),
    decreases *t,
{
    match t {
        Ty::Name(name) => Ty::Name(name.clone()),
        Ty::Slice(elem) => Ty::Slice(Box::new(clone_ty(&**elem))),
        Ty::Array(size, elem) => Ty::Array(*size, Box::new(clone_ty(&**elem))),
        Ty::Struct(fields) => {
            let mut copies: Vec<Param> = Vec::new();
            let mut i: usize = 0;
            while i < fields.len()
                invariant
                    *t is Struct,
                    t->Struct_0 == *fields,
                    i <= fields.len(),
                    copies.len() == i,
                    forall|k: int| 0 <= k < i ==> param_view(#[trigger] copies[k]) == param_view(
                        fields[k],
                    ),
                decreases fields.len() - i,
            {
                let field = &fields[i];
                proof {
                    axiom_vec_index_decreases(*fields, i as int);
                }
                copies.push(Param { name: field.name.clone(), ty: Box::new(clone_ty(&*field.ty)) });
                i += 1;
            }
            assert(ty_view(Ty::Struct(copies)) == ty_view(*t)) by {
                assert(ty_view(Ty::Struct(copies))->Struct_0 =~= ty_view(*t)->Struct_0);
            }
            Ty::Struct(copies)
        },
        Ty::Func(params, result) => {
            let mut copies: Vec<Ty> = Vec::new();
            let mut i: usize = 0;
            while i < params.len()
                invariant
                    *t is Func,
                    t->Func_0 == *params,
                    i <= params.len(),
                    copies.len() == i,
                    forall|k: int| 0 <= k < i ==> ty_view(#[trigger] copies[k]) == ty_view(
                        params[k],
                    ),
                decreases params.len() - i,
            {
                proof {
                    axiom_vec_index_decreases(*params, i as int);
                }
                copies.push(clone_ty(&params[i]));
                i += 1;
            }
            let result = clone_ty(&**result);
            assert(ty_view(Ty::Func(copies, Box::new(result))) == ty_view(*t)) by {
                assert(ty_view(Ty::Func(copies, Box::new(result)))->Func_0 =~= ty_view(
                    *t,
                )->Func_0);
            }
            Ty::Func(copies, Box::new(result))
        },
        Ty::Void => Ty::Void,
    }
}

/// A copy of `e`.
fn clone_expr(e: &Expr) -> (r: Expr)
    ensures
        expr_view(r) == expr_view(*e),
    decreases *e,
{
    Expr { expr_kind: Box::new(clone_expr_kind(&*e.expr_kind)), loc: e.loc.clone() }
}

/// A copy of `k`.
fn clone_expr_kind(k: &ExprKind) -> (r: ExprKind)
    ensures
        expr_kind_view(r) == expr_kind_view(*k),
    decreases *k,
{
    match k {
        ExprKind::Id(name) => ExprKind::Id(name.clone()),
        ExprKind::Int(value) => ExprKind::Int(*value),
        ExprKind::Float64(literal) => ExprKind::Float64(literal.clone()),
        ExprKind::String(content) => ExprKind::String(content.clone()),
        ExprKind::Rune(c) => ExprKind::Rune(*c),
        ExprKind::UnaryOp { op, expr } => ExprKind::UnaryOp {
            op: *op,
            expr: Box::new(clone_expr(&**expr)),
        },
        ExprKind::BinaryOp { op, expr1, expr2 } => ExprKind::BinaryOp {
            op: *op,
            expr1: Box::new(clone_expr(&**expr1)),
            expr2: Box::new(clone_expr(&**expr2)),
        },
        ExprKind::Append { slice, element } => ExprKind::Append {
            slice: Box::new(clone_expr(&**slice)),
            element: Box::new(clone_expr(&**element)),
        },
        ExprKind::Call { func, args } => {
            let mut copies: Vec<Expr> = Vec::new();
            let mut i: usize = 0;
            while i < args.len()
                invariant
                    *k is Call,
                    k->args == *args,
                    i <= args.len(),
                    copies.len() == i,
                    forall|j: int| 0 <= j < i ==> expr_view(#[trigger] copies[j]) == expr_view(
                        args[j],
                    ),
                decreases args.len() - i,
            {
                proof {
                    axiom_vec_index_decreases(*args, i as int);
                }
                copies.push(clone_expr(&args[i]));
                i += 1;
            }
            assert(exprs_view(copies) =~= exprs_view(*args));
            ExprKind::Call { func: func.clone(), args: copies }
        },
        ExprKind::Cast { ty, expr } => ExprKind::Cast {
            ty: clone_ty(ty),
            expr: Box::new(clone_expr(&**expr)),
        },
        ExprKind::IndexAccess { array, index } => ExprKind::IndexAccess {
            array: Box::new(clone_expr(&**array)),
            index: Box::new(clone_expr(&**index)),
        },
        ExprKind::FieldAccess { record, field } => ExprKind::FieldAccess {
            record: Box::new(clone_expr(&**record)),
            field: field.clone(),
        },
    }
}

impl Clone for Expr {
    fn clone(&self) -> (r: Expr)
        ensures
            r@ == self@,
    {
        clone_expr(self)
    }
}

impl Clone for ExprKind {
    fn clone(&self) -> (r: ExprKind)
        ensures
            expr_kind_view(r) == expr_kind_view(*self),
    {
        clone_expr_kind(self)
    }
}

impl Clone for Ty {
    fn clone(&self) -> (r: Ty)
        ensures
            r@ == self@,
    {
        clone_ty(self)
    }
}

impl Clone for Param {
    fn clone(&self) -> (r: Param)
        ensures
            r@ == self@,
    {
        Param { name: self.name.clone(), ty: Box::new(clone_ty(&*self.ty)) }
    }
}

impl Param {
    pub fn new(name: Id, ty: Ty) -> (r: Param)
        ensures
            r == (Param { name: name, ty: Box::new(ty) }),
    {
        Param { name: name, ty: Box::new(ty) }
    }
}

} // verus!
