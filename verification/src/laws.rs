use vstd::prelude::*;
use crate::ast::{Expr, IfExpr, ItemImpl, Local, Pat, Path, UseTree};
use crate::expr::{
    if_chain_rewrites_to, let_cond_rewrites_to, local_replaced_after_init, match_cands,
};
use crate::fnbody::{find_marker, marker_err, opt_expr_err, visit_expr_err, visit_stmt_err};
use crate::ident::{marker_name, proj_name};
use crate::items::{impl_rewrites_to, lifetime_collides, use_err, use_rewrites_to};
use crate::pattern::{
    committed_shape, lemma_fresh_rewrites_any, pat_candidates, pat_rewrites_to, path_rewrites_to,
    path_shape, rewrites_any, spec_is_replaceable,
};
use crate::{Mutability, RewriteError};

verus! {

/// A pattern with exactly one rewritable path shape has that path rewritten
/// by a fresh pass: the shape committed to is that path's shape, the pass
/// records a replacement, and — by the definition of `pat_rewrites_to` — the
/// result differs from the input only in that path's leading identifier.
pub proof fn law_single_path_rewritten(p: Pat, r: Pat, m: Mutability, allow_pat_path: bool)
    requires
        pat_candidates(p, allow_pat_path).len() == 1,
        pat_rewrites_to(
            p,
            r,
            committed_shape(None, pat_candidates(p, allow_pat_path)),
            m,
            allow_pat_path,
        ),
    ensures
        committed_shape(None, pat_candidates(p, allow_pat_path))
            == Some(pat_candidates(p, allow_pat_path)[0]),
        rewrites_any(
            pat_candidates(p, allow_pat_path),
            committed_shape(None, pat_candidates(p, allow_pat_path)),
        ),
        pat_rewrites_to(p, r, Some(pat_candidates(p, allow_pat_path)[0]), m, allow_pat_path),
{
    lemma_fresh_rewrites_any(pat_candidates(p, allow_pat_path));
}

/// In a pattern with two differently shaped rewritable paths, a fresh pass
/// commits to the first; any path of the second shape keeps all its segment
/// names, and no error arises — pattern rewriting has no error outcome.
pub proof fn law_second_path_kept(
    p: Pat,
    m: Mutability,
    allow_pat_path: bool,
    pa: Path,
    pb: Path,
)
    requires
        pat_candidates(p, allow_pat_path).len() == 2,
        pat_candidates(p, allow_pat_path)[0] != pat_candidates(p, allow_pat_path)[1],
        path_shape(pa) == Some(pat_candidates(p, allow_pat_path)[1]),
        path_rewrites_to(
            pa,
            pb,
            committed_shape(None, pat_candidates(p, allow_pat_path)),
            m,
        ),
    ensures
        committed_shape(None, pat_candidates(p, allow_pat_path))
            == Some(pat_candidates(p, allow_pat_path)[0]),
        pb.names() == pa.names(),
{
}

/// A `let` statement whose initializer is a match with at least one
/// rewritable arm pattern, and whose own binding pattern is replaceable, is
/// always rejected as ambiguous by a fresh local rewrite — whether or not
/// the two name the same type. The second and third premises are the
/// contract of `Context::replace_local` for a fresh context.
pub proof fn law_ambiguous_let_rejected(
    l: Local,
    r: Result<Local, RewriteError>,
    m: Mutability,
)
    requires
        l.init matches Some(bx) && *bx matches Expr::Match(me) && match_cands(me).len() > 0,
        spec_is_replaceable(l.pat, false),
        r is Err <==> local_replaced_after_init(l, None, false) && spec_is_replaceable(
            l.pat,
            false,
        ),
        r is Err ==> r == Err::<Local, RewriteError>(RewriteError::AmbiguousLet),
    ensures
        r == Err::<Local, RewriteError>(RewriteError::AmbiguousLet),
{
    lemma_fresh_rewrites_any(crate::expr::local_init_cands(l));
}

/// A `let` statement whose initializer is not a match and whose pattern is a
/// bare binding passes a fresh local rewrite with no error and no change:
/// the premises after the first two are the contract of
/// `Context::replace_local` for a fresh context.
pub proof fn law_plain_let_untouched(l: Local, r: Result<Local, RewriteError>, m: Mutability)
    requires
        l.init matches Some(bx) && !(*bx is Match),
        l.pat matches Pat::Binding { subpat: None, .. },
        r is Err <==> local_replaced_after_init(l, None, false) && spec_is_replaceable(
            l.pat,
            false,
        ),
        r matches Ok(b) ==> crate::expr::local_rewrites_to(l, b, None, false, m),
    ensures
        r is Ok,
        r matches Ok(b) ==> b.attrs == l.attrs && b.init == l.init
            && (b.pat matches Pat::Binding { name: bn, subpat: None }
                && bn@ == l.pat->Binding_name@),
{
    assert(crate::expr::local_init_cands(l).len() == 0);
    lemma_fresh_rewrites_any(crate::expr::local_init_cands(l));
}

/// An `if let ... {} else if let ... {} else {}` chain of two let-conditions
/// rewrites the patterns of both conditions — each by a fresh context of its
/// own — and leaves the trailing plain else branch exactly as it was.
pub proof fn law_if_let_chain(a: IfExpr, b: IfExpr, m: Mutability)
    requires
        *a.cond is LetCond,
        a.else_branch matches Some(eb) && *eb matches Expr::If(ei) && *ei.cond is LetCond
            && !(ei.else_branch matches Some(eb2) && *eb2 is If),
        if_chain_rewrites_to(a, b, m),
    ensures
        b.then_stmts == a.then_stmts,
        *b.cond matches Expr::LetCond(le2) && let_cond_rewrites_to(a.cond->LetCond_0, le2, m),
        b.else_branch matches Some(eb2) && *eb2 matches Expr::If(ei2)
            && (*ei2.cond matches Expr::LetCond(ile2) && let_cond_rewrites_to(
                a.else_branch->0->If_0.cond->LetCond_0,
                ile2,
                m,
            ))
            && ei2.then_stmts == a.else_branch->0->If_0.then_stmts
            && ei2.else_branch == a.else_branch->0->If_0.else_branch,
{
    let ei = a.else_branch->0->If_0;
    assert(b.else_branch matches Some(eb2) && *eb2 is If);
    let ei2 = b.else_branch->0->If_0;
    assert(if_chain_rewrites_to(ei, ei2, m));
    match ei.else_branch {
        Some(x) => {}
        None => {
            assert(ei2.else_branch == ei.else_branch);
        }
    }
}

/// A plain name import under a path prefix rewrites to the projection name;
/// a glob import and a renamed import are refused, each with its own,
/// distinguishable error.
pub proof fn law_use_forms(prefix: crate::Ident, name: crate::Ident, b: UseTree, m: Mutability)
    requires
        use_rewrites_to(
            UseTree::UsePath {
                ident: prefix,
                tree: Box::new(UseTree::UseName { ident: name }),
            },
            b,
            m,
        ),
    ensures
        b matches UseTree::UsePath { ident: bi, tree: bt } && bi@ == prefix@
            && (*bt matches UseTree::UseName { ident: bn } && bn@ == proj_name(name@, m)),
        use_err(UseTree::UseGlob) == Some(RewriteError::GlobImport),
        use_err(
            UseTree::UseRename { ident: prefix, rename: name },
        ) == Some(RewriteError::RenamedImport),
        RewriteError::GlobImport != RewriteError::RenamedImport,
{
    assert(b matches UseTree::UsePath { ident: bi, tree: bt });
    let bt = b->UsePath_tree;
    assert(use_rewrites_to(UseTree::UseName { ident: name }, *bt, m));
}

/// A rewritten impl block with a path self type gains exactly one new
/// leading lifetime parameter, both on the block's generics and on the self
/// type's argument list, and the chosen name equals no lifetime already
/// declared on the block or on any of its methods.
pub proof fn law_impl_fresh_lifetime(a: ItemImpl, b: ItemImpl, m: Mutability)
    requires
        a.self_ty is PathTy,
        impl_rewrites_to(a, b, m),
    ensures
        b.generics@.len() == a.generics@.len() + 1,
        b.generics@.drop_first() == a.generics@,
        b.generics@[0] is LifetimeParam,
        forall|i: int| 0 <= i < a.generics@.len() && (#[trigger] a.generics@[i]) is LifetimeParam
            ==> a.generics@[i]->LifetimeParam_name@ != b.generics@[0]->LifetimeParam_name@,
        forall|k: int, i: int|
            0 <= k < a.methods@.len() && 0 <= i < a.methods@[k].generics@.len()
                && (#[trigger] a.methods@[k].generics@[i]) is LifetimeParam
                ==> a.methods@[k].generics@[i]->LifetimeParam_name@
                    != b.generics@[0]->LifetimeParam_name@,
{
    let lt = b.generics@[0]->LifetimeParam_name@;
    assert(lt.is_prefix_of(lt)) by {
        assert(lt =~= lt.subrange(0, lt.len() as int));
    }
    assert forall|i: int|
        0 <= i < a.generics@.len() && (#[trigger] a.generics@[i]) is LifetimeParam
        implies a.generics@[i]->LifetimeParam_name@ != lt by {
        if a.generics@[i]->LifetimeParam_name@ == lt {
            assert(lifetime_collides(lt, a.generics@));
        }
    }
    assert forall|k: int, i: int|
        0 <= k < a.methods@.len() && 0 <= i < a.methods@[k].generics@.len()
            && (#[trigger] a.methods@[k].generics@[i]) is LifetimeParam
        implies a.methods@[k].generics@[i]->LifetimeParam_name@ != lt by {
        if a.methods@[k].generics@[i]->LifetimeParam_name@ == lt {
            assert(a.methods@[k] == a.methods@[k]);
            assert(lifetime_collides(lt, a.methods@[k].generics@));
        }
    }
}

/// A marker attribute that carries argument tokens makes the visit of its
/// node fail, whatever the node: a marked `let` statement.
pub proof fn law_marker_args_rejected_local(l: Local, m: Mutability)
    requires
        find_marker(l.attrs@, marker_name(m)) matches Some(i) && !l.attrs@[i].tokens_empty,
    ensures
        visit_stmt_err(crate::ast::Stmt::Local(l), m) is Some,
{
    if opt_expr_err(l.init, m) is None {
        assert(visit_stmt_err(crate::ast::Stmt::Local(l), m)
            == Some(RewriteError::UnexpectedArgument));
    }
}

/// A marker attribute that carries argument tokens makes the visit of its
/// node fail, whatever the node: a marked match expression.
pub proof fn law_marker_args_rejected_match(me: crate::ast::MatchExpr, m: Mutability)
    requires
        find_marker(me.attrs@, marker_name(m)) matches Some(i) && !me.attrs@[i].tokens_empty,
    ensures
        visit_expr_err(Expr::Match(me), m) is Some,
{
    assert(marker_err(me.attrs@, m) == Some(RewriteError::UnexpectedArgument));
}

/// A marker attribute that carries argument tokens makes the visit of its
/// node fail, whatever the node: a marked if-let expression.
pub proof fn law_marker_args_rejected_if_let(ie: IfExpr, m: Mutability)
    requires
        *ie.cond is LetCond,
        find_marker(ie.attrs@, marker_name(m)) matches Some(i) && !ie.attrs@[i].tokens_empty,
    ensures
        visit_expr_err(Expr::If(ie), m) is Some,
{
    assert(marker_err(ie.attrs@, m) == Some(RewriteError::UnexpectedArgument));
}

} // verus!
