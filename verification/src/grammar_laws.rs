//! What holds of the grammar on every token sequence.

use vstd::prelude::*;
use crate::error::ErrorTypeView;
use crate::grammar::{
    decls_from, failure, file, id_list, lemma_id_list_advances, looking_at, starts_decl,
    stmt_list_from, toplevel_decl, var_decl, var_spec, var_specs_from, Context,
};
use crate::loc::LocView;
use crate::token::{Token, TokenType};
use crate::untyped_ast::{AstView, StmtView, TopLevelDeclView, VarDeclView};

verus! {

/// A file that does not start with `package` has no package declaration.
pub proof fn lemma_missing_package_declaration(tokens: Seq<Token>)
    requires
        !looking_at(tokens, 0, TokenType::Package),
    ensures
        file(tokens) == Err::<AstView, _>(
            failure(tokens, 0, ErrorTypeView::MissingPackageDeclaration).error,
        ),
{
}

/// A file in which no name follows `package` has no package name.
pub proof fn lemma_missing_package_name(tokens: Seq<Token>)
    requires
        looking_at(tokens, 0, TokenType::Package),
        !looking_at(tokens, 1, TokenType::Id),
    ensures
        file(tokens) == Err::<AstView, _>(
            failure(tokens, 1, ErrorTypeView::MissingPackageName).error,
        ),
{
}

/// A file that holds its package clause and nothing else is a tree without
/// declarations, named as the clause says and located where the file
/// starts.
pub proof fn lemma_package_only(tokens: Seq<Token>)
    requires
        looking_at(tokens, 0, TokenType::Package),
        looking_at(tokens, 1, TokenType::Id),
        tokens[1].lexeme is Some,
        looking_at(tokens, 2, TokenType::Semi),
        looking_at(tokens, 3, TokenType::Eof),
    ensures
        file(tokens) == Ok::<_, crate::error::ErrorView>(
            AstView {
                package_name: tokens[1].lexeme->0@,
                declarations: Seq::empty(),
                loc: tokens[0].loc@,
            },
        ),
{
}

/// In a block that no loop and no switch encloses, `break` is an error,
/// reported at the `break`, whatever statements came before it.
pub proof fn lemma_break_outside(tokens: Seq<Token>, pos: int, stmts: Seq<StmtView>)
    requires
        looking_at(tokens, pos, TokenType::Break),
    ensures
        stmt_list_from(tokens, pos, Context { in_loop: false, in_switch: false }, stmts) == Err::<
            (Seq<StmtView>, int),
            _,
        >(failure(tokens, pos, ErrorTypeView::InvalidBreak)),
{
}

/// In a block that no loop encloses, `continue` is an error, reported at
/// the `continue`, whatever statements came before it.
pub proof fn lemma_continue_outside(
    tokens: Seq<Token>,
    pos: int,
    in_switch: bool,
    stmts: Seq<StmtView>,
)
    requires
        looking_at(tokens, pos, TokenType::Continue),
    ensures
        stmt_list_from(tokens, pos, Context { in_loop: false, in_switch: in_switch }, stmts)
            == Err::<(Seq<StmtView>, int), _>(
            failure(tokens, pos, ErrorTypeView::InvalidContinue),
        ),
{
}

/// True if a variable is declared with a type, an initial value, or both.
pub open spec fn declares_something(d: VarDeclView) -> bool {
    d.ty is Some || d.init is Some
}

/// True if each of `decls` has a type, an initial value, or both.
pub open spec fn all_declare_something(decls: Seq<VarDeclView>) -> bool {
    forall|i: int| 0 <= i < decls.len() ==> declares_something(#[trigger] decls[i])
}

/// True if every variable among `decls` has a type, an initial value, or
/// both.
pub open spec fn variables_declare_something(decls: Seq<TopLevelDeclView>) -> bool {
    forall|i: int|
        0 <= i < decls.len() ==> ((#[trigger] decls[i]) matches TopLevelDeclView::VarDecl(d)
            ==> declares_something(d))
}

/// A variable specification declares one variable for each of its names,
/// each located where the declaration starts, and each with a type, an
/// initial value, or both.
pub proof fn lemma_var_spec_declares(tokens: Seq<Token>, pos: int, loc: LocView)
    requires
        0 <= pos,
    ensures
        var_spec(tokens, pos, loc) matches Ok((decls, next)) ==> {
            &&& id_list(tokens, pos) matches Ok((names, after))
            &&& decls.len() == names.len()
            &&& decls.len() >= 1
            &&& all_declare_something(decls)
            &&& forall|i: int|
                0 <= i < decls.len() ==> (#[trigger] decls[i]).name == names[i] && decls[i].loc
                    == loc
        },
{
    lemma_id_list_advances(tokens, pos);
}

/// A group of variable specifications gives every variable a type, an
/// initial value, or both, if those before it have them.
pub proof fn lemma_var_specs_declare(
    tokens: Seq<Token>,
    pos: int,
    loc: LocView,
    decls: Seq<VarDeclView>,
)
    requires
        0 <= pos <= tokens.len(),
        all_declare_something(decls),
    ensures
        var_specs_from(tokens, pos, loc, decls) matches Ok((all, next)) ==> all_declare_something(
            all,
        ),
    decreases tokens.len() - pos,
{
    if looking_at(tokens, pos, TokenType::Id) {
        lemma_var_spec_declares(tokens, pos, loc);
        crate::grammar::lemma_var_spec_advances(tokens, pos, loc);
        match var_spec(tokens, pos, loc) {
            Err(e) => {},
            Ok((ds, next)) => {
                if looking_at(tokens, next, TokenType::Semi) {
                    lemma_var_specs_declare(tokens, next + 1, loc, decls + ds);
                }
            },
        }
    }
}

/// Whatever `var` declares has a type, an initial value, or both.
pub proof fn lemma_var_decl_declares(tokens: Seq<Token>, pos: int)
    requires
        0 <= pos,
    ensures
        var_decl(tokens, pos) matches Ok((decls, next)) ==> decls.len() >= 1
            && all_declare_something(decls),
{
    let loc = crate::grammar::current(tokens, pos).loc@;
    lemma_var_spec_declares(tokens, pos + 1, loc);
    if looking_at(tokens, pos + 1, TokenType::LParen) {
        lemma_var_specs_declare(tokens, pos + 2, loc, Seq::empty());
    }
}

/// The declarations of a file give every variable a type, an initial
/// value, or both, if those before them do.
pub proof fn lemma_decls_declare(tokens: Seq<Token>, pos: int, decls: Seq<TopLevelDeclView>)
    requires
        0 <= pos <= tokens.len(),
        variables_declare_something(decls),
    ensures
        decls_from(tokens, pos, decls) matches Ok((all, next)) ==> variables_declare_something(
            all,
        ),
    decreases tokens.len() - pos,
{
    if starts_decl(tokens, pos) {
        crate::grammar::lemma_toplevel_decl_advances(tokens, pos);
        lemma_var_decl_declares(tokens, pos);
        match toplevel_decl(tokens, pos) {
            Err(e) => {},
            Ok((ds, next)) => {
                assert(variables_declare_something(ds));
                lemma_decls_declare(tokens, next, decls + ds);
            },
        }
    }
}

/// Every variable that a file declares has a type, an initial value, or
/// both.
pub proof fn lemma_file_variables(tokens: Seq<Token>)
    ensures
        file(tokens) matches Ok(ast) ==> variables_declare_something(ast.declarations),
{
    if looking_at(tokens, 2, TokenType::Semi) {
        lemma_decls_declare(tokens, 3, Seq::empty());
    }
}

} // verus!
