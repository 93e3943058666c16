use vstd::prelude::*;
use crate::ast::{Arm, Attr, Expr, IfExpr, ItemFn, LetExpr, Local, MatchExpr, Stmt};
use crate::expr::{
    arms_rewritten_to, local_init_cands, local_rewrites_to, match_cands, replace_expr,
};
use crate::ident::{marker_ident, marker_name};
use crate::pattern::{committed_shape, pat_rewrites_to, spec_is_replaceable, Context};
use crate::{Ident, Mutability, RewriteError};

verus! {

/// The index of the first attribute with the given name, if any.
pub open spec fn find_marker(attrs: Seq<Attr>, mname: Seq<char>) -> Option<int>
    decreases attrs,
{
    if attrs.len() == 0 {
        None
    } else if attrs[0].name@ == mname {
        Some(0)
    } else {
        match find_marker(attrs.drop_first(), mname) {
            Some(i) => Some(i + 1),
            None => None,
        }
    }
}

proof fn lemma_find_marker_at(attrs: Seq<Attr>, mname: Seq<char>, k: int)
    requires
        0 <= k < attrs.len(),
        forall|j: int| 0 <= j < k ==> (#[trigger] attrs[j]).name@ != mname,
        attrs[k].name@ == mname,
    ensures
        find_marker(attrs, mname) == Some(k),
    decreases attrs,
{
    if k > 0 {
        lemma_find_marker_at(attrs.drop_first(), mname, k - 1);
    }
}

proof fn lemma_find_marker_none(attrs: Seq<Attr>, mname: Seq<char>)
    requires
        forall|j: int| 0 <= j < attrs.len() ==> (#[trigger] attrs[j]).name@ != mname,
    ensures
        find_marker(attrs, mname) is None,
    decreases attrs,
{
    if attrs.len() > 0 {
        lemma_find_marker_none(attrs.drop_first(), mname);
    }
}

/// Find the first attribute named `name` and take it out of the list; the
/// rest keep their order.
pub fn find_remove(attrs: Vec<Attr>, name: &Ident) -> (r: (Vec<Attr>, Option<Attr>))
    ensures
        match find_marker(attrs@, name@) {
            None => r.0@ == attrs@ && r.1 is None,
            Some(i) => r.1 matches Some(a) && a == attrs@[i] && r.0@ == attrs@.remove(i),
        },
{
    let n = attrs.len();
    let mut i: usize = 0;
    while i < n
        invariant
            n == attrs@.len(),
            i <= n,
            forall|j: int| 0 <= j < i ==> (#[trigger] attrs@[j]).name@ != name@,
        decreases n - i,
    {
        if attrs[i].name.eq_ident(name) {
            proof {
                lemma_find_marker_at(attrs@, name@, i as int);
            }
            let mut v = attrs;
            let a = v.remove(i);
            return (v, Some(a));
        }
        i += 1;
    }
    proof {
        lemma_find_marker_none(attrs@, name@);
    }
    (attrs, None)
}

/// The first of two possible errors.
pub open spec fn or_else(
    a: Option<RewriteError>,
    b: Option<RewriteError>,
) -> Option<RewriteError> {
    if a is Some {
        a
    } else {
        b
    }
}

/// The error, if any, that visiting an expression of a function body
/// reports: the first error among its subexpressions in traversal order, or
/// else a fault of its own marker — a marker with argument tokens anywhere,
/// and on a marked match or if-let in a `let` statement, the ambiguity rule
/// of the local rewrite.
pub open spec fn visit_expr_err(e: Expr, m: Mutability) -> Option<RewriteError>
    decreases e,
{
    match e {
        Expr::Match(me) => or_else(
            visit_expr_err(*me.scrutinee, m),
            or_else(arms_err(me.arms@, m), marker_err(me.attrs@, m)),
        ),
        Expr::If(ie) => or_else(
            visit_expr_err(*ie.cond, m),
            or_else(
                stmts_err(ie.then_stmts@, m),
                or_else(
                    opt_expr_err(ie.else_branch, m),
                    if *ie.cond is LetCond {
                        marker_err(ie.attrs@, m)
                    } else {
                        None
                    },
                ),
            ),
        ),
        Expr::LetCond(le) => visit_expr_err(*le.init, m),
        Expr::BlockExpr { stmts } => stmts_err(stmts@, m),
        Expr::Other { children } => exprs_err(children@, m),
    }
}

/// A marker attribute's own fault: present but given argument tokens.
pub open spec fn marker_err(attrs: Seq<Attr>, m: Mutability) -> Option<RewriteError> {
    match find_marker(attrs, marker_name(m)) {
        Some(i) => if attrs[i].tokens_empty {
            None
        } else {
            Some(RewriteError::UnexpectedArgument)
        },
        None => None,
    }
}

pub open spec fn exprs_err(es: Seq<Expr>, m: Mutability) -> Option<RewriteError>
    decreases es,
{
    if es.len() == 0 {
        None
    } else {
        or_else(visit_expr_err(es[0], m), exprs_err(es.drop_first(), m))
    }
}

pub open spec fn arms_err(arms: Seq<Arm>, m: Mutability) -> Option<RewriteError>
    decreases arms,
{
    if arms.len() == 0 {
        None
    } else {
        or_else(visit_expr_err(arms[0].body, m), arms_err(arms.drop_first(), m))
    }
}

pub open spec fn opt_expr_err(o: Option<Box<Expr>>, m: Mutability) -> Option<RewriteError>
    decreases o,
{
    match o {
        Some(b) => visit_expr_err(*b, m),
        None => None,
    }
}

pub open spec fn stmts_err(ss: Seq<Stmt>, m: Mutability) -> Option<RewriteError>
    decreases ss,
{
    if ss.len() == 0 {
        None
    } else {
        or_else(visit_stmt_err(ss[0], m), stmts_err(ss.drop_first(), m))
    }
}

/// The error, if any, that visiting one statement reports.
pub open spec fn visit_stmt_err(s: Stmt, m: Mutability) -> Option<RewriteError>
    decreases s,
{
    match s {
        Stmt::ExprStmt(e) => visit_expr_err(e, m),
        Stmt::ItemStmt(..) => None,
        Stmt::Local(l) => or_else(
            opt_expr_err(l.init, m),
            match find_marker(l.attrs@, marker_name(m)) {
                Some(i) => if !l.attrs@[i].tokens_empty {
                    Some(RewriteError::UnexpectedArgument)
                } else if local_init_cands(l).len() > 0 && spec_is_replaceable(l.pat, false) {
                    Some(RewriteError::AmbiguousLet)
                } else {
                    None
                },
                None => None,
            },
        ),
    }
}

/// How visiting rewrites an expression when it reports no error: every
/// subexpression is visited first; then a match, or an if whose condition is
/// a let-condition, that carries the mode's marker has the marker taken out
/// and its patterns rewritten as a bare marked expression would be.
pub open spec fn visit_expr_to(a: Expr, b: Expr, m: Mutability) -> bool
    decreases a,
{
    match a {
        Expr::Match(me) => b matches Expr::Match(me2)
            && (match find_marker(me.attrs@, marker_name(m)) {
                None => me2.attrs@ == me.attrs@,
                Some(i) => me2.attrs@ == me.attrs@.remove(i),
            })
            && visit_expr_to(*me.scrutinee, *me2.scrutinee, m)
            && me2.arms@.len() == me.arms@.len()
            && (forall|i: int| #![trigger me.arms@[i]] 0 <= i < me.arms@.len()
                ==> visit_expr_to(me.arms@[i].body, me2.arms@[i].body, m))
            && (match find_marker(me.attrs@, marker_name(m)) {
                None => forall|i: int| #![trigger me.arms@[i]] 0 <= i < me.arms@.len()
                    ==> me2.arms@[i].pat == me.arms@[i].pat,
                Some(..) => forall|i: int| #![trigger me.arms@[i]] 0 <= i < me.arms@.len()
                    ==> pat_rewrites_to(
                        me.arms@[i].pat,
                        me2.arms@[i].pat,
                        committed_shape(None, match_cands(me)),
                        m,
                        true,
                    ),
            }),
        Expr::If(ie) => if *ie.cond is LetCond && find_marker(ie.attrs@, marker_name(m)) is Some {
            exists|mid: IfExpr| #![trigger mid.attrs]
                mid.attrs@ == ie.attrs@.remove(find_marker(ie.attrs@, marker_name(m))->0)
                && if_children_to(ie, mid, m)
                && (b matches Expr::If(b2) && crate::expr::if_chain_rewrites_to(mid, b2, m))
        } else {
            b matches Expr::If(ie2) && ie2.attrs@ == ie.attrs@ && if_children_to(ie, ie2, m)
        },
        Expr::LetCond(le) => b matches Expr::LetCond(le2)
            && le2.pat == le.pat
            && visit_expr_to(*le.init, *le2.init, m),
        Expr::BlockExpr { stmts } => b matches Expr::BlockExpr { stmts: bs }
            && stmts_visited_to(stmts@, bs@, m),
        Expr::Other { children } => b matches Expr::Other { children: bc }
            && exprs_visited_to(children@, bc@, m),
    }
}

/// The visited parts of an if expression, its attributes aside: condition,
/// then-branch statements and else branch.
pub open spec fn if_children_to(a: IfExpr, b: IfExpr, m: Mutability) -> bool
    decreases a,
{
    visit_expr_to(*a.cond, *b.cond, m)
    && stmts_visited_to(a.then_stmts@, b.then_stmts@, m)
    && b.then_stmts@.len() == a.then_stmts@.len()
    && (match a.else_branch {
        Some(eb) => b.else_branch matches Some(eb2) && visit_expr_to(*eb, *eb2, m),
        None => b.else_branch is None,
    })
}

pub open spec fn exprs_visited_to(a: Seq<Expr>, b: Seq<Expr>, m: Mutability) -> bool
    decreases a,
{
    b.len() == a.len() && (forall|i: int| #![trigger a[i]] 0 <= i < a.len()
        ==> visit_expr_to(a[i], b[i], m))
}

pub open spec fn stmts_visited_to(a: Seq<Stmt>, b: Seq<Stmt>, m: Mutability) -> bool
    decreases a,
{
    b.len() == a.len() && (forall|i: int| #![trigger a[i]] 0 <= i < a.len()
        ==> visit_stmt_to(a[i], b[i], m))
}

pub open spec fn opt_expr_visited_to(
    a: Option<Box<Expr>>,
    b: Option<Box<Expr>>,
    m: Mutability,
) -> bool
    decreases a,
{
    match a {
        Some(x) => b matches Some(y) && visit_expr_to(*x, *y, m),
        None => b is None,
    }
}

/// How visiting rewrites one statement when it reports no error: nested
/// items are left untouched; a `let` statement has its initializer visited
/// and, where it carries the mode's marker, the marker taken out and the
/// local rewrite applied by a fresh context.
pub open spec fn visit_stmt_to(a: Stmt, b: Stmt, m: Mutability) -> bool
    decreases a,
{
    match a {
        Stmt::ExprStmt(e) => b matches Stmt::ExprStmt(e2) && visit_expr_to(e, e2, m),
        Stmt::ItemStmt(..) => b == a,
        Stmt::Local(l) => match find_marker(l.attrs@, marker_name(m)) {
            None => b matches Stmt::Local(l2)
                && l2.attrs@ == l.attrs@
                && l2.pat == l.pat
                && opt_expr_visited_to(l.init, l2.init, m),
            Some(i) => exists|mid: Local| #![trigger mid.attrs]
                mid.attrs@ == l.attrs@.remove(i)
                && mid.pat == l.pat
                && opt_expr_visited_to(l.init, mid.init, m)
                && (b matches Stmt::Local(l2) && local_rewrites_to(mid, l2, None, false, m)),
        },
    }
}

proof fn lemma_stmts_err_at(ss: Seq<Stmt>, m: Mutability, k: int)
    requires
        0 <= k < ss.len(),
        forall|j: int| 0 <= j < k ==> visit_stmt_err(#[trigger] ss[j], m) is None,
        visit_stmt_err(ss[k], m) is Some,
    ensures
        stmts_err(ss, m) == visit_stmt_err(ss[k], m),
    decreases ss,
{
    if k > 0 {
        lemma_stmts_err_at(ss.drop_first(), m, k - 1);
    }
}

proof fn lemma_stmts_err_none(ss: Seq<Stmt>, m: Mutability)
    requires
        forall|j: int| 0 <= j < ss.len() ==> visit_stmt_err(#[trigger] ss[j], m) is None,
    ensures
        stmts_err(ss, m) is None,
    decreases ss,
{
    if ss.len() > 0 {
        lemma_stmts_err_none(ss.drop_first(), m);
    }
}

proof fn lemma_exprs_err_at(es: Seq<Expr>, m: Mutability, k: int)
    requires
        0 <= k < es.len(),
        forall|j: int| 0 <= j < k ==> visit_expr_err(#[trigger] es[j], m) is None,
        visit_expr_err(es[k], m) is Some,
    ensures
        exprs_err(es, m) == visit_expr_err(es[k], m),
    decreases es,
{
    if k > 0 {
        lemma_exprs_err_at(es.drop_first(), m, k - 1);
    }
}

proof fn lemma_exprs_err_none(es: Seq<Expr>, m: Mutability)
    requires
        forall|j: int| 0 <= j < es.len() ==> visit_expr_err(#[trigger] es[j], m) is None,
    ensures
        exprs_err(es, m) is None,
    decreases es,
{
    if es.len() > 0 {
        lemma_exprs_err_none(es.drop_first(), m);
    }
}

proof fn lemma_arms_err_at(arms: Seq<Arm>, m: Mutability, k: int)
    requires
        0 <= k < arms.len(),
        forall|j: int| 0 <= j < k ==> visit_expr_err((#[trigger] arms[j]).body, m) is None,
        visit_expr_err(arms[k].body, m) is Some,
    ensures
        arms_err(arms, m) == visit_expr_err(arms[k].body, m),
    decreases arms,
{
    if k > 0 {
        lemma_arms_err_at(arms.drop_first(), m, k - 1);
    }
}

proof fn lemma_arms_err_none(arms: Seq<Arm>, m: Mutability)
    requires
        forall|j: int| 0 <= j < arms.len() ==> visit_expr_err((#[trigger] arms[j]).body, m) is None,
    ensures
        arms_err(arms, m) is None,
    decreases arms,
{
    if arms.len() > 0 {
        lemma_arms_err_none(arms.drop_first(), m);
    }
}

/// Visiting keeps an expression's shape at the top: a match stays a match
/// with as many candidates, and a let-condition stays a let-condition.
proof fn lemma_visit_keeps_shape(a: Expr, b: Expr, m: Mutability)
    requires
        visit_expr_to(a, b, m),
    ensures
        a is Match <==> b is Match,
        a is LetCond <==> b is LetCond,
        a is Match ==> match_cands(b->Match_0).len() == match_cands(a->Match_0).len(),
{
    match a {
        Expr::Match(me) => {
            let me2 = b->Match_0;
            let ap = crate::expr::arm_pats(me.arms@);
            let bp = crate::expr::arm_pats(me2.arms@);
            match find_marker(me.attrs@, marker_name(m)) {
                None => {
                    assert forall|i: int| 0 <= i < ap.len() implies #[trigger] ap[i] == bp[i] by {
                        assert(me.arms@[i] == me.arms@[i]);
                    }
                    assert(ap =~= bp);
                }
                Some(..) => {
                    let com = committed_shape(None, match_cands(me));
                    assert forall|i: int| #![trigger ap[i]] 0 <= i < ap.len()
                        implies pat_rewrites_to(ap[i], bp[i], com, m, true) by {
                        assert(me.arms@[i] == me.arms@[i]);
                        assert(ap[i] == me.arms@[i].pat);
                        assert(bp[i] == me2.arms@[i].pat);
                    }
                    crate::pattern::lemma_pats_cands_len(ap, bp, com, m, true);
                }
            }
        }
        _ => {}
    }
}

/// Visit every expression of a list, in order, stopping at the first error.
pub fn visit_exprs(v: Vec<Expr>, m: Mutability) -> (r: Result<Vec<Expr>, RewriteError>)
    ensures
        match r {
            Ok(b) => exprs_err(v@, m) is None && exprs_visited_to(v@, b@, m),
            Err(e) => exprs_err(v@, m) == Some(e),
        },
    decreases v,
{
    let ghost v0 = v;
    let mut rest = v;
    let ghost orig = rest@;
    let mut out: Vec<Expr> = Vec::new();
    while rest.len() > 0
        invariant
            v == v0,
            v0@ == orig,
            out@.len() + rest@.len() == orig.len(),
            rest@ == orig.subrange(out@.len() as int, orig.len() as int),
            forall|j: int| 0 <= j < out@.len() ==> visit_expr_err(#[trigger] orig[j], m) is None,
            forall|j: int| #![trigger out@[j]] 0 <= j < out@.len()
                ==> visit_expr_to(orig[j], out@[j], m),
        decreases rest@.len(),
    {
        let ghost k = out@.len() as int;
        let c = rest.remove(0);
        proof {
            assert(rest@ =~= orig.subrange(k + 1, orig.len() as int));
            assert(c == orig[k]);
            assert(decreases_to!(v0 => v0@[k]));
        }
        match visit_expr(c, m) {
            Ok(b) => {
                out.push(b);
            }
            Err(e) => {
                proof {
                    lemma_exprs_err_at(orig, m, k);
                }
                return Err(e);
            }
        }
    }
    proof {
        lemma_exprs_err_none(orig, m);
    }
    Ok(out)
}

/// Visit every statement of a list, in order, stopping at the first error.
pub fn visit_stmts(v: Vec<Stmt>, m: Mutability) -> (r: Result<Vec<Stmt>, RewriteError>)
    ensures
        match r {
            Ok(b) => stmts_err(v@, m) is None && stmts_visited_to(v@, b@, m),
            Err(e) => stmts_err(v@, m) == Some(e),
        },
    decreases v,
{
    let ghost v0 = v;
    let mut rest = v;
    let ghost orig = rest@;
    let mut out: Vec<Stmt> = Vec::new();
    while rest.len() > 0
        invariant
            v == v0,
            v0@ == orig,
            out@.len() + rest@.len() == orig.len(),
            rest@ == orig.subrange(out@.len() as int, orig.len() as int),
            forall|j: int| 0 <= j < out@.len() ==> visit_stmt_err(#[trigger] orig[j], m) is None,
            forall|j: int| #![trigger out@[j]] 0 <= j < out@.len()
                ==> visit_stmt_to(orig[j], out@[j], m),
        decreases rest@.len(),
    {
        let ghost k = out@.len() as int;
        let c = rest.remove(0);
        proof {
            assert(rest@ =~= orig.subrange(k + 1, orig.len() as int));
            assert(c == orig[k]);
            assert(decreases_to!(v0 => v0@[k]));
        }
        match visit_stmt(c, m) {
            Ok(b) => {
                out.push(b);
            }
            Err(e) => {
                proof {
                    lemma_stmts_err_at(orig, m, k);
                }
                return Err(e);
            }
        }
    }
    proof {
        lemma_stmts_err_none(orig, m);
    }
    Ok(out)
}

/// Visit every arm body of a match, in order; arm patterns are kept.
pub fn visit_arms(v: Vec<Arm>, m: Mutability) -> (r: Result<Vec<Arm>, RewriteError>)
    ensures
        match r {
            Ok(b) => arms_err(v@, m) is None
                && b@.len() == v@.len()
                && (forall|i: int| #![trigger v@[i]] 0 <= i < v@.len()
                    ==> b@[i].pat == v@[i].pat && visit_expr_to(v@[i].body, b@[i].body, m)),
            Err(e) => arms_err(v@, m) == Some(e),
        },
    decreases v,
{
    let ghost v0 = v;
    let mut rest = v;
    let ghost orig = rest@;
    let mut out: Vec<Arm> = Vec::new();
    while rest.len() > 0
        invariant
            v == v0,
            v0@ == orig,
            out@.len() + rest@.len() == orig.len(),
            rest@ == orig.subrange(out@.len() as int, orig.len() as int),
            forall|j: int| 0 <= j < out@.len()
                ==> visit_expr_err((#[trigger] orig[j]).body, m) is None,
            forall|j: int| #![trigger out@[j]] 0 <= j < out@.len()
                ==> out@[j].pat == orig[j].pat && visit_expr_to(orig[j].body, out@[j].body, m),
        decreases rest@.len(),
    {
        let ghost k = out@.len() as int;
        let c = rest.remove(0);
        proof {
            assert(rest@ =~= orig.subrange(k + 1, orig.len() as int));
            assert(c == orig[k]);
            assert(decreases_to!(v0 => v0@[k].body));
        }
        let Arm { pat, body } = c;
        match visit_expr(body, m) {
            Ok(b) => {
                out.push(Arm { pat, body: b });
            }
            Err(e) => {
                proof {
                    lemma_arms_err_at(orig, m, k);
                }
                return Err(e);
            }
        }
    }
    proof {
        lemma_arms_err_none(orig, m);
    }
    Ok(out)
}

/// Visit one expression of a function body: every subexpression first, in
/// source order; then, where a match or if-let carries the mode's marker and
/// the marker has no argument tokens, take the marker out and rewrite the
/// node as a bare marked expression.
pub fn visit_expr(e: Expr, m: Mutability) -> (r: Result<Expr, RewriteError>)
    ensures
        match r {
            Ok(b) => visit_expr_err(e, m) is None && visit_expr_to(e, b, m),
            Err(er) => visit_expr_err(e, m) == Some(er),
        },
    decreases e,
{
    let ghost e0 = e;
    match e {
        Expr::Match(me) => {
            let ghost me0 = me;
            let MatchExpr { attrs, scrutinee, arms } = me;
            let s2 = match visit_expr(*scrutinee, m) {
                Ok(x) => x,
                Err(er) => {
                    return Err(er);
                }
            };
            let arms2 = match visit_arms(arms, m) {
                Ok(x) => x,
                Err(er) => {
                    return Err(er);
                }
            };
            let mk = marker_ident(m);
            let (attrs2, found) = find_remove(attrs, &mk);
            match found {
                None => Ok(Expr::Match(MatchExpr {
                    attrs: attrs2,
                    scrutinee: Box::new(s2),
                    arms: arms2,
                })),
                Some(at) => {
                    if !at.tokens_empty {
                        return Err(RewriteError::UnexpectedArgument);
                    }
                    let mid = MatchExpr { attrs: attrs2, scrutinee: Box::new(s2), arms: arms2 };
                    let ghost midg = mid;
                    let r2 = replace_expr(Expr::Match(mid), m);
                    proof {
                        assert(arm_pats_of(midg.arms@) =~= arm_pats_of(me0.arms@));
                        assert(match_cands(midg) == match_cands(me0));
                        let me2 = r2->Match_0;
                        let com = committed_shape(None, match_cands(me0));
                        assert forall|i: int| #![trigger me0.arms@[i]] 0 <= i < me0.arms@.len()
                            implies visit_expr_to(me0.arms@[i].body, me2.arms@[i].body, m)
                                && pat_rewrites_to(
                                me0.arms@[i].pat,
                                me2.arms@[i].pat,
                                com,
                                m,
                                true,
                            ) by {
                            assert(midg.arms@[i] == midg.arms@[i]);
                        }
                    }
                    Ok(r2)
                }
            }
        }
        Expr::If(ie) => {
            let ghost ie0 = ie;
            let IfExpr { attrs, cond, then_stmts, else_branch } = ie;
            let c2 = match visit_expr(*cond, m) {
                Ok(x) => x,
                Err(er) => {
                    return Err(er);
                }
            };
            let ts2 = match visit_stmts(then_stmts, m) {
                Ok(x) => x,
                Err(er) => {
                    return Err(er);
                }
            };
            let eb2 = match else_branch {
                Some(bx) => match visit_expr(*bx, m) {
                    Ok(x) => Some(Box::new(x)),
                    Err(er) => {
                        proof {
                            assert(opt_expr_err(ie0.else_branch, m) == Some(er));
                        }
                        return Err(er);
                    }
                },
                None => None,
            };
            proof {
                assert(opt_expr_err(ie0.else_branch, m) is None);
                lemma_visit_keeps_shape(*ie0.cond, c2, m);
            }
            let cond_is_let = match &c2 {
                Expr::LetCond(..) => true,
                _ => false,
            };
            if cond_is_let {
                let mk = marker_ident(m);
                let (attrs2, found) = find_remove(attrs, &mk);
                match found {
                    Some(at) => {
                        if !at.tokens_empty {
                            return Err(RewriteError::UnexpectedArgument);
                        }
                        let mid = IfExpr {
                            attrs: attrs2,
                            cond: Box::new(c2),
                            then_stmts: ts2,
                            else_branch: eb2,
                        };
                        let ghost midg = mid;
                        let r2 = replace_expr(Expr::If(mid), m);
                        proof {
                            assert(if_children_to(ie0, midg, m));
                            assert(midg.attrs@ == ie0.attrs@.remove(
                                find_marker(ie0.attrs@, marker_name(m))->0,
                            ));
                        }
                        Ok(r2)
                    }
                    None => {
                        let out = IfExpr {
                            attrs: attrs2,
                            cond: Box::new(c2),
                            then_stmts: ts2,
                            else_branch: eb2,
                        };
                        proof {
                            assert(if_children_to(ie0, out, m));
                        }
                        Ok(Expr::If(out))
                    }
                }
            } else {
                let out = IfExpr {
                    attrs,
                    cond: Box::new(c2),
                    then_stmts: ts2,
                    else_branch: eb2,
                };
                proof {
                    assert(if_children_to(ie0, out, m));
                }
                Ok(Expr::If(out))
            }
        }
        Expr::LetCond(le) => {
            let LetExpr { pat, init } = le;
            let i2 = match visit_expr(*init, m) {
                Ok(x) => x,
                Err(er) => {
                    return Err(er);
                }
            };
            Ok(Expr::LetCond(LetExpr { pat, init: Box::new(i2) }))
        }
        Expr::BlockExpr { stmts } => {
            let s2 = match visit_stmts(stmts, m) {
                Ok(x) => x,
                Err(er) => {
                    return Err(er);
                }
            };
            Ok(Expr::BlockExpr { stmts: s2 })
        }
        Expr::Other { children } => {
            let c2 = match visit_exprs(children, m) {
                Ok(x) => x,
                Err(er) => {
                    return Err(er);
                }
            };
            Ok(Expr::Other { children: c2 })
        }
    }
}

/// The arm patterns, as `crate::expr::arm_pats`, under a local name.
pub open spec fn arm_pats_of(arms: Seq<Arm>) -> Seq<crate::ast::Pat> {
    crate::expr::arm_pats(arms)
}

/// Visit one statement of a function body. A nested item definition is left
/// completely untouched.
pub fn visit_stmt(s: Stmt, m: Mutability) -> (r: Result<Stmt, RewriteError>)
    ensures
        match r {
            Ok(b) => visit_stmt_err(s, m) is None && visit_stmt_to(s, b, m),
            Err(er) => visit_stmt_err(s, m) == Some(er),
        },
    decreases s,
{
    let ghost s0 = s;
    match s {
        Stmt::ExprStmt(e) => match visit_expr(e, m) {
            Ok(b) => Ok(Stmt::ExprStmt(b)),
            Err(er) => Err(er),
        },
        Stmt::ItemStmt(it) => Ok(Stmt::ItemStmt(it)),
        Stmt::Local(l) => {
            let ghost l0 = l;
            let Local { attrs, pat, init } = l;
            let init2 = match init {
                Some(bx) => match visit_expr(*bx, m) {
                    Ok(x) => Some(Box::new(x)),
                    Err(er) => {
                        return Err(er);
                    }
                },
                None => None,
            };
            let mk = marker_ident(m);
            let (attrs2, found) = find_remove(attrs, &mk);
            match found {
                None => Ok(Stmt::Local(Local { attrs: attrs2, pat, init: init2 })),
                Some(at) => {
                    if !at.tokens_empty {
                        return Err(RewriteError::UnexpectedArgument);
                    }
                    let mid = Local { attrs: attrs2, pat, init: init2 };
                    let ghost midg = mid;
                    proof {
                        match l0.init {
                            Some(bx) => {
                                let y = *midg.init->0;
                                lemma_visit_keeps_shape(*bx, y, m);
                            }
                            None => {}
                        }
                        assert(local_init_cands(midg).len() == local_init_cands(l0).len());
                        crate::pattern::lemma_fresh_rewrites_any(local_init_cands(midg));
                    }
                    let mut ctx = Context::new(m);
                    match ctx.replace_local(mid) {
                        Ok(l2) => {
                            proof {
                                assert(midg.attrs@ == l0.attrs@.remove(
                                    find_marker(l0.attrs@, marker_name(m))->0,
                                ));
                            }
                            Ok(Stmt::Local(l2))
                        }
                        Err(er) => Err(er),
                    }
                }
            }
        }
    }
}

/// Rewrite a function item: walk its body statement by statement, rewriting
/// the nodes that carry the mode's marker, and stop at the first error.
pub fn replace_item_fn(item: ItemFn, m: Mutability) -> (r: Result<ItemFn, RewriteError>)
    ensures
        match r {
            Ok(b) => stmts_err(item.stmts@, m) is None
                && stmts_visited_to(item.stmts@, b.stmts@, m),
            Err(e) => stmts_err(item.stmts@, m) == Some(e),
        },
{
    let ItemFn { stmts } = item;
    match visit_stmts(stmts, m) {
        Ok(s2) => Ok(ItemFn { stmts: s2 }),
        Err(e) => Err(e),
    }
}

} // verus!
