use vstd::prelude::*;
use crate::ast::{Arm, Expr, IfExpr, LetExpr, Local, MatchExpr};
use crate::pattern::{
    committed_shape, is_replaceable, lemma_committed_compose, lemma_contains_concat,
    lemma_pat_rewrites_mono, lemma_pats_candidates_concat, lemma_pats_candidates_empty,
    pat_candidates, pat_rewrites_to, pats_candidates, reg_shape, rewrites_any,
    spec_is_replaceable, Context,
};
use crate::{Mutability, RewriteError};

verus! {

/// The patterns of a sequence of match arms, in order.
pub open spec fn arm_pats(arms: Seq<Arm>) -> Seq<crate::ast::Pat> {
    arms.map(|i: int, ar: Arm| ar.pat)
}

/// The rewritable path shapes of a match expression's arms, in order.
pub open spec fn match_cands(me: MatchExpr) -> Seq<(Seq<char>, int)> {
    pats_candidates(arm_pats(me.arms@), true)
}

/// How the arms of a match are rewritten under a committed shape: bodies are
/// kept, each pattern is rewritten.
pub open spec fn arms_rewritten_to(
    a: Seq<Arm>,
    b: Seq<Arm>,
    com: Option<(Seq<char>, int)>,
    m: Mutability,
) -> bool {
    b.len() == a.len() && (forall|i: int| #![trigger a[i]] 0 <= i < a.len()
        ==> b[i].body == a[i].body && pat_rewrites_to(a[i].pat, b[i].pat, com, m, true))
}

impl Context {
    /// Rewrite a let-condition of an if expression: its pattern is rewritten
    /// with bare path patterns allowed, its initializer is kept.
    pub fn replace_expr_let(&mut self, e: LetExpr) -> (r: LetExpr)
        ensures
            final(self).mutability == old(self).mutability,
            reg_shape(final(self).register) == committed_shape(
                reg_shape(old(self).register),
                pat_candidates(e.pat, true),
            ),
            final(self).replaced == (old(self).replaced || rewrites_any(
                pat_candidates(e.pat, true),
                committed_shape(reg_shape(old(self).register), pat_candidates(e.pat, true)),
            )),
            r.init == e.init,
            pat_rewrites_to(
                e.pat,
                r.pat,
                committed_shape(reg_shape(old(self).register), pat_candidates(e.pat, true)),
                old(self).mutability,
                true,
            ),
    {
        let LetExpr { pat, init } = e;
        let p2 = self.replace_pat(pat, true);
        LetExpr { pat: p2, init }
    }

    /// Rewrite every arm pattern of a match expression, in order, under this
    /// one context; arm bodies, the scrutinee and the attributes are kept.
    pub fn replace_expr_match(&mut self, e: MatchExpr) -> (r: MatchExpr)
        ensures
            final(self).mutability == old(self).mutability,
            reg_shape(final(self).register) == committed_shape(
                reg_shape(old(self).register),
                match_cands(e),
            ),
            final(self).replaced == (old(self).replaced || rewrites_any(
                match_cands(e),
                committed_shape(reg_shape(old(self).register), match_cands(e)),
            )),
            r.attrs == e.attrs,
            r.scrutinee == e.scrutinee,
            arms_rewritten_to(
                e.arms@,
                r.arms@,
                committed_shape(reg_shape(old(self).register), match_cands(e)),
                old(self).mutability,
            ),
    {
        let MatchExpr { attrs, scrutinee, arms } = e;
        let ghost orig = arms@;
        let ghost ap = arm_pats(orig);
        let ghost reg0 = reg_shape(old(self).register);
        let ghost rep0 = old(self).replaced;
        let ghost m0 = old(self).mutability;
        let mut rest = arms;
        let mut out: Vec<Arm> = Vec::new();
        proof {
            assert(ap.len() == orig.len());
        }
        while rest.len() > 0
            invariant
                ap == arm_pats(orig),
                ap.len() == orig.len(),
                out@.len() + rest@.len() == orig.len(),
                rest@ == orig.subrange(out@.len() as int, orig.len() as int),
                self.mutability == m0,
                reg_shape(self.register) == committed_shape(
                    reg0,
                    pats_candidates(ap.subrange(0, out@.len() as int), true),
                ),
                self.replaced == (rep0 || rewrites_any(
                    pats_candidates(ap.subrange(0, out@.len() as int), true),
                    committed_shape(
                        reg0,
                        pats_candidates(ap.subrange(0, out@.len() as int), true),
                    ),
                )),
                forall|j: int| #![trigger out@[j]] 0 <= j < out@.len()
                    ==> out@[j].body == orig[j].body && pat_rewrites_to(
                        orig[j].pat,
                        out@[j].pat,
                        committed_shape(
                            reg0,
                            pats_candidates(ap.subrange(0, out@.len() as int), true),
                        ),
                        m0,
                        true,
                    ),
            decreases rest@.len(),
        {
            let ghost k = out@.len() as int;
            let ghost prefix_cands = pats_candidates(ap.subrange(0, k), true);
            let ghost com_k = committed_shape(reg0, prefix_cands);
            let a = rest.remove(0);
            proof {
                assert(rest@ =~= orig.subrange(k + 1, orig.len() as int));
                assert(a == orig[k]);
                assert(ap[k] == orig[k].pat);
            }
            let Arm { pat, body } = a;
            let p2 = self.replace_pat(pat, true);
            proof {
                let ck = pat_candidates(ap[k], true);
                let prefix2 = ap.subrange(0, k + 1);
                assert(prefix2 =~= ap.subrange(0, k) + seq![ap[k]]);
                lemma_pats_candidates_concat(ap.subrange(0, k), seq![ap[k]], true);
                let s1 = seq![ap[k]];
                assert(s1.len() == 1 && s1[0] == ap[k]);
                assert(s1.drop_first() =~= Seq::<crate::ast::Pat>::empty());
                assert(pats_candidates(s1.drop_first(), true)
                    == Seq::<(Seq<char>, int)>::empty());
                assert(pats_candidates(s1, true) == ck + pats_candidates(s1.drop_first(), true));
                assert(pats_candidates(s1, true) =~= ck);
                assert(pats_candidates(prefix2, true) == prefix_cands + ck);
                lemma_committed_compose(reg0, prefix_cands, ck);
                let com_k1 = committed_shape(reg0, prefix_cands + ck);
                assert(com_k1 == committed_shape(com_k, ck));
                let rc = Arm { pat: p2, body: orig[k].body };
                assert forall|j: int| #![trigger out@.push(rc)[j]] 0 <= j < k + 1
                    implies out@.push(rc)[j].body == orig[j].body && pat_rewrites_to(
                        orig[j].pat,
                        out@.push(rc)[j].pat,
                        com_k1,
                        m0,
                        true,
                    ) by {
                    if j < k {
                        assert(out@.push(rc)[j] == out@[j]);
                        assert(pat_rewrites_to(orig[j].pat, out@[j].pat, com_k, m0, true));
                        if com_k != com_k1 {
                            assert(com_k is None);
                            assert(prefix_cands.len() == 0);
                            lemma_pats_candidates_empty(ap.subrange(0, k), true, j);
                            assert(ap.subrange(0, k)[j] == orig[j].pat);
                            lemma_pat_rewrites_mono(
                                orig[j].pat, out@[j].pat, com_k, com_k1, m0, true,
                            );
                        }
                    } else {
                        assert(out@.push(rc)[j] == rc);
                    }
                }
                if com_k1 is Some {
                    lemma_contains_concat(prefix_cands, ck, com_k1->0);
                    if com_k is None {
                        assert(prefix_cands.len() == 0);
                        assert(!prefix_cands.contains(com_k1->0));
                    }
                }
            }
            out.push(Arm { pat: p2, body });
        }
        proof {
            assert(ap.subrange(0, out@.len() as int) =~= ap);
        }
        MatchExpr { attrs, scrutinee, arms: out }
    }
}

/// The candidates that rewriting a `let` statement's initializer would see:
/// those of the arms of an initializer that is itself a match expression.
pub open spec fn local_init_cands(l: Local) -> Seq<(Seq<char>, int)> {
    match l.init {
        Some(bx) => match *bx {
            Expr::Match(me) => match_cands(me),
            _ => Seq::empty(),
        },
        None => Seq::empty(),
    }
}

/// Whether rewriting the initializer leaves the `let` statement replaced,
/// starting from a context with registration `reg0` and flag `rep0`.
pub open spec fn local_replaced_after_init(l: Local, reg0: Option<(Seq<char>, int)>, rep0: bool) -> bool {
    rep0 || rewrites_any(local_init_cands(l), committed_shape(reg0, local_init_cands(l)))
}

/// How an accepted `let` statement is rewritten: the arms of a match
/// initializer first, then — only if that replaced nothing — the binding
/// pattern, with bare path patterns not allowed.
pub open spec fn local_rewrites_to(
    a: Local,
    b: Local,
    reg0: Option<(Seq<char>, int)>,
    rep0: bool,
    m: Mutability,
) -> bool {
    let com1 = committed_shape(reg0, local_init_cands(a));
    b.attrs == a.attrs && (match a.init {
        Some(bx) => match *bx {
            Expr::Match(me) => b.init matches Some(bb) && *bb matches Expr::Match(me2)
                && me2.attrs == me.attrs
                && me2.scrutinee == me.scrutinee
                && arms_rewritten_to(me.arms@, me2.arms@, com1, m),
            _ => b.init == a.init,
        },
        None => b.init is None,
    }) && (if local_replaced_after_init(a, reg0, rep0) {
        b.pat == a.pat
    } else {
        pat_rewrites_to(
            a.pat,
            b.pat,
            committed_shape(com1, pat_candidates(a.pat, false)),
            m,
            false,
        )
    })
}

impl Context {
    /// Rewrite a `let PATTERN = EXPR;` statement: the arms of a match
    /// initializer first; then, where nothing was replaced yet, the binding
    /// pattern. A statement whose initializer replaced something and whose
    /// binding pattern is itself replaceable is rejected as ambiguous.
    pub fn replace_local(&mut self, local: Local) -> (r: Result<Local, RewriteError>)
        ensures
            final(self).mutability == old(self).mutability,
            r is Err <==> local_replaced_after_init(
                local,
                reg_shape(old(self).register),
                old(self).replaced,
            ) && spec_is_replaceable(local.pat, false),
            r is Err ==> r == Err::<Local, RewriteError>(RewriteError::AmbiguousLet),
            r matches Ok(b) ==> local_rewrites_to(
                local,
                b,
                reg_shape(old(self).register),
                old(self).replaced,
                old(self).mutability,
            ),
    {
        let ghost reg0 = reg_shape(old(self).register);
        let ghost rep0 = old(self).replaced;
        let Local { attrs, pat, init } = local;
        let init2 = match init {
            Some(bx) => {
                let inner = *bx;
                match inner {
                    Expr::Match(me) => {
                        let me2 = self.replace_expr_match(me);
                        Some(Box::new(Expr::Match(me2)))
                    }
                    other => Some(Box::new(other)),
                }
            }
            None => None,
        };
        proof {
            assert(self.replaced == local_replaced_after_init(local, reg0, rep0));
        }
        if self.replaced {
            if is_replaceable(&pat, false) {
                return Err(RewriteError::AmbiguousLet);
            }
            Ok(Local { attrs, pat, init: init2 })
        } else {
            let p2 = self.replace_pat(pat, false);
            Ok(Local { attrs, pat: p2, init: init2 })
        }
    }
}

/// How a let-condition is rewritten by a fresh context.
pub open spec fn let_cond_rewrites_to(a: LetExpr, b: LetExpr, m: Mutability) -> bool {
    b.init == a.init && pat_rewrites_to(
        a.pat,
        b.pat,
        committed_shape(None, pat_candidates(a.pat, true)),
        m,
        true,
    )
}

/// How an if-let chain is rewritten: each let-condition is rewritten by a
/// fresh context of its own; the chain is followed through `else if let`
/// branches and stops at a plain else, a missing else, or an `if` whose
/// condition is not a let-condition.
pub open spec fn if_chain_rewrites_to(a: IfExpr, b: IfExpr, m: Mutability) -> bool
    decreases a,
{
    match *a.cond {
        Expr::LetCond(le) => b.attrs == a.attrs
            && b.then_stmts == a.then_stmts
            && (*b.cond matches Expr::LetCond(le2) && let_cond_rewrites_to(le, le2, m))
            && (match a.else_branch {
                Some(eb) => match *eb {
                    Expr::If(ei) => b.else_branch matches Some(eb2)
                        && *eb2 matches Expr::If(ei2)
                        && if_chain_rewrites_to(ei, ei2, m),
                    _ => b.else_branch == a.else_branch,
                },
                None => b.else_branch is None,
            }),
        _ => b == a,
    }
}

/// How a bare expression is rewritten: a match expression's arms are
/// rewritten by one fresh context, an if-let chain link by link, and any
/// other expression is kept.
pub open spec fn expr_replaced_to(a: Expr, b: Expr, m: Mutability) -> bool {
    match a {
        Expr::Match(me) => b matches Expr::Match(me2)
            && me2.attrs == me.attrs
            && me2.scrutinee == me.scrutinee
            && arms_rewritten_to(me.arms@, me2.arms@, committed_shape(None, match_cands(me)), m),
        Expr::If(ie) => b matches Expr::If(ie2) && if_chain_rewrites_to(ie, ie2, m),
        _ => b == a,
    }
}

/// Follow an if-let chain, rewriting each let-condition with a fresh
/// context.
pub fn replace_if_chain(e: IfExpr, mutability: Mutability) -> (r: IfExpr)
    ensures
        if_chain_rewrites_to(e, r, mutability),
    decreases e,
{
    let IfExpr { attrs, cond, then_stmts, else_branch } = e;
    let cond_inner = *cond;
    match cond_inner {
        Expr::LetCond(le) => {
            let mut ctx = Context::new(mutability);
            let le2 = ctx.replace_expr_let(le);
            let else2 = match else_branch {
                Some(eb) => {
                    let eb_inner = *eb;
                    match eb_inner {
                        Expr::If(ei) => {
                            let ei2 = replace_if_chain(ei, mutability);
                            Some(Box::new(Expr::If(ei2)))
                        }
                        other => Some(Box::new(other)),
                    }
                }
                None => None,
            };
            IfExpr {
                attrs,
                cond: Box::new(Expr::LetCond(le2)),
                then_stmts,
                else_branch: else2,
            }
        }
        other => IfExpr { attrs, cond: Box::new(other), then_stmts, else_branch },
    }
}

/// Rewrite a bare match or if-let expression; anything else is returned
/// unchanged.
pub fn replace_expr(e: Expr, mutability: Mutability) -> (r: Expr)
    ensures
        expr_replaced_to(e, r, mutability),
{
    match e {
        Expr::Match(me) => {
            let mut ctx = Context::new(mutability);
            let me2 = ctx.replace_expr_match(me);
            Expr::Match(me2)
        }
        Expr::If(ie) => {
            let ie2 = replace_if_chain(ie, mutability);
            Expr::If(ie2)
        }
        other => other,
    }
}

} // verus!
