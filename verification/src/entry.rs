use vstd::prelude::*;
use crate::ast::{Item, PathArgs, SelfTy, Stmt};
use crate::expr::{expr_replaced_to, local_replaced_after_init, local_rewrites_to, replace_expr};
use crate::fnbody::{replace_item_fn, stmts_err, stmts_visited_to};
use crate::items::{impl_rewrites_to, replace_item_impl, replace_item_use, use_err, use_rewrites_to};
use crate::pattern::{spec_is_replaceable, Context};
use crate::{Mutability, RewriteError};

verus! {

/// Whether a statement is an impl item whose self type carries a
/// parenthesized argument list: well-formed input never contains one, and
/// the rewrite does not accept it.
pub open spec fn stmt_parenthesized_impl(s: Stmt) -> bool {
    s matches Stmt::ItemStmt(it) && it matches Item::ImplItem(ii)
        && ii.self_ty matches SelfTy::PathTy { args: PathArgs::Parenthesized, .. }
}

/// The error a rewrite of one statement reports, if any.
pub open spec fn parse_err(s: Stmt, m: Mutability) -> Option<RewriteError> {
    match s {
        Stmt::ExprStmt(..) => None,
        Stmt::Local(l) => if local_replaced_after_init(l, None, false)
            && spec_is_replaceable(l.pat, false) {
            Some(RewriteError::AmbiguousLet)
        } else {
            None
        },
        Stmt::ItemStmt(it) => match it {
            Item::FnItem(f) => stmts_err(f.stmts@, m),
            Item::UseItem(u) => use_err(u.tree),
            _ => None,
        },
    }
}

/// How an accepted statement is rewritten, by its kind.
pub open spec fn parse_rewrites_to(s: Stmt, b: Stmt, m: Mutability) -> bool {
    match s {
        Stmt::ExprStmt(e) => b matches Stmt::ExprStmt(e2) && expr_replaced_to(e, e2, m),
        Stmt::Local(l) => b matches Stmt::Local(l2) && local_rewrites_to(l, l2, None, false, m),
        Stmt::ItemStmt(it) => match it {
            Item::FnItem(f) => b matches Stmt::ItemStmt(it2)
                && (it2 matches Item::FnItem(f2) && stmts_visited_to(f.stmts@, f2.stmts@, m)),
            Item::ImplItem(ii) => b matches Stmt::ItemStmt(it2)
                && (it2 matches Item::ImplItem(i2) && impl_rewrites_to(ii, i2, m)),
            Item::UseItem(u) => b matches Stmt::ItemStmt(it2)
                && (it2 matches Item::UseItem(u2) && use_rewrites_to(u.tree, u2.tree, m)),
            Item::OtherItem => b == s,
        },
    }
}

/// Rewrite one statement by its syntactic kind: a bare expression through
/// the expression rewriter, a `let` statement through the local rewriter
/// with a fresh context, a function item through the body visitor, an impl
/// or use item through its item rewriter; anything else passes through
/// unchanged.
pub fn parse(stmt: Stmt, mutability: Mutability) -> (r: Result<Stmt, RewriteError>)
    requires
        !stmt_parenthesized_impl(stmt),
    ensures
        match r {
            Ok(b) => parse_err(stmt, mutability) is None && parse_rewrites_to(stmt, b, mutability),
            Err(e) => parse_err(stmt, mutability) == Some(e),
        },
{
    match stmt {
        Stmt::ExprStmt(e) => Ok(Stmt::ExprStmt(replace_expr(e, mutability))),
        Stmt::Local(l) => {
            let mut ctx = Context::new(mutability);
            match ctx.replace_local(l) {
                Ok(l2) => Ok(Stmt::Local(l2)),
                Err(e) => Err(e),
            }
        }
        Stmt::ItemStmt(it) => match it {
            Item::FnItem(f) => match replace_item_fn(f, mutability) {
                Ok(f2) => Ok(Stmt::ItemStmt(Item::FnItem(f2))),
                Err(e) => Err(e),
            },
            Item::ImplItem(ii) => {
                let i2 = replace_item_impl(ii, mutability);
                Ok(Stmt::ItemStmt(Item::ImplItem(i2)))
            }
            Item::UseItem(u) => match replace_item_use(u, mutability) {
                Ok(u2) => Ok(Stmt::ItemStmt(Item::UseItem(u2))),
                Err(e) => Err(e),
            },
            Item::OtherItem => Ok(Stmt::ItemStmt(Item::OtherItem)),
        },
    }
}

/// The whole rewrite of one annotated statement: the attribute itself must
/// have been given no argument tokens; then the statement is rewritten by
/// its kind. On failure the caller renders the error as a compiler
/// diagnostic in place of the statement.
pub fn attribute(args_empty: bool, stmt: Stmt, mutability: Mutability) -> (r: Result<
    Stmt,
    RewriteError,
>)
    requires
        !stmt_parenthesized_impl(stmt),
    ensures
        !args_empty ==> r == Err::<Stmt, RewriteError>(RewriteError::UnexpectedArgument),
        args_empty ==> match r {
            Ok(b) => parse_err(stmt, mutability) is None && parse_rewrites_to(stmt, b, mutability),
            Err(e) => parse_err(stmt, mutability) == Some(e),
        },
{
    if !args_empty {
        return Err(RewriteError::UnexpectedArgument);
    }
    parse(stmt, mutability)
}

} // verus!
