use vstd::prelude::*;
use crate::ast::{Pat, Path};
use crate::ident::{proj_ident, proj_name};
use crate::{Ident, Mutability};

verus! {

/// The shape of a path as the rewrite compares paths: its leading segment's
/// name and its segment count, for counts of one (a plain struct path) or two
/// (an enum variant path). Any other count is not a rewritable shape.
pub open spec fn path_shape(p: Path) -> Option<(Seq<char>, int)> {
    if p.segments@.len() == 1 || p.segments@.len() == 2 {
        Some((p.segments@[0]@, p.segments@.len() as int))
    } else {
        None
    }
}

/// A shape as a sequence of zero or one candidates.
pub open spec fn shape_seq(s: Option<(Seq<char>, int)>) -> Seq<(Seq<char>, int)> {
    match s {
        Some(sh) => seq![sh],
        None => Seq::empty(),
    }
}

/// The rewritable path shapes of a pattern, in traversal order. A bare path
/// pattern counts only where `allow_pat_path` holds and it has no qualified
/// self prefix.
pub open spec fn pat_candidates(p: Pat, allow_pat_path: bool) -> Seq<(Seq<char>, int)>
    decreases p,
{
    match p {
        Pat::Binding { name, subpat } => match subpat {
            Some(sub) => pat_candidates(*sub, allow_pat_path),
            None => Seq::empty(),
        },
        Pat::Ref { inner } => pat_candidates(*inner, allow_pat_path),
        Pat::BoxPat { inner } => pat_candidates(*inner, allow_pat_path),
        Pat::Ascribed { inner } => pat_candidates(*inner, allow_pat_path),
        Pat::Or { cases } => pats_candidates(cases@, allow_pat_path),
        Pat::StructPat { path } => shape_seq(path_shape(path)),
        Pat::TupleStructPat { path } => shape_seq(path_shape(path)),
        Pat::PathPat { qself, path } => if !qself && allow_pat_path {
            shape_seq(path_shape(path))
        } else {
            Seq::empty()
        },
        Pat::Other => Seq::empty(),
    }
}

/// The candidates of a sequence of patterns, concatenated in order.
pub open spec fn pats_candidates(ps: Seq<Pat>, allow_pat_path: bool) -> Seq<(Seq<char>, int)>
    decreases ps,
{
    if ps.len() == 0 {
        Seq::empty()
    } else {
        pat_candidates(ps[0], allow_pat_path) + pats_candidates(ps.drop_first(), allow_pat_path)
    }
}

/// The single-slot memo of the rewrite context, read as a shape.
pub open spec fn reg_shape(r: Option<RegisteredPath>) -> Option<(Seq<char>, int)> {
    match r {
        Some(rp) => Some((rp.name@, rp.len as int)),
        None => None,
    }
}

/// The shape a rewrite pass commits to: the one already registered, or else
/// the first candidate encountered, if any.
pub open spec fn committed_shape(
    reg: Option<(Seq<char>, int)>,
    cands: Seq<(Seq<char>, int)>,
) -> Option<(Seq<char>, int)> {
    if reg is Some {
        reg
    } else if cands.len() > 0 {
        Some(cands[0])
    } else {
        None
    }
}

/// Whether a pass over candidates `cands` committed to `com` rewrites
/// anything.
pub open spec fn rewrites_any(
    cands: Seq<(Seq<char>, int)>,
    com: Option<(Seq<char>, int)>,
) -> bool {
    com is Some && cands.contains(com->0)
}

/// How one path is rewritten under a committed shape: a path of exactly that
/// shape has its leading segment renamed to the projection name; every other
/// path keeps all its segment names.
pub open spec fn path_rewrites_to(
    a: Path,
    b: Path,
    com: Option<(Seq<char>, int)>,
    m: Mutability,
) -> bool {
    if path_shape(a) is Some && com == path_shape(a) {
        b.names() == a.names().update(0, proj_name(a.names()[0], m))
    } else {
        b.names() == a.names()
    }
}

/// How a whole pattern is rewritten under a committed shape: the tree keeps
/// its structure and every name in it, except that each struct, tuple-struct
/// or (where allowed) bare path whose shape equals the committed one has its
/// leading segment renamed.
pub open spec fn pat_rewrites_to(
    a: Pat,
    b: Pat,
    com: Option<(Seq<char>, int)>,
    m: Mutability,
    allow_pat_path: bool,
) -> bool
    decreases a,
{
    match a {
        Pat::Binding { name, subpat } => match subpat {
            Some(sub) => b matches Pat::Binding { name: bn, subpat: Some(bs) }
                && bn@ == name@
                && pat_rewrites_to(*sub, *bs, com, m, allow_pat_path),
            None => b matches Pat::Binding { name: bn, subpat: None } && bn@ == name@,
        },
        Pat::Ref { inner } => b matches Pat::Ref { inner: bi }
            && pat_rewrites_to(*inner, *bi, com, m, allow_pat_path),
        Pat::BoxPat { inner } => b matches Pat::BoxPat { inner: bi }
            && pat_rewrites_to(*inner, *bi, com, m, allow_pat_path),
        Pat::Ascribed { inner } => b matches Pat::Ascribed { inner: bi }
            && pat_rewrites_to(*inner, *bi, com, m, allow_pat_path),
        Pat::Or { cases } => b matches Pat::Or { cases: bc }
            && bc@.len() == cases@.len()
            && (forall|i: int| #![trigger cases@[i]] 0 <= i < cases@.len()
                ==> pat_rewrites_to(cases@[i], bc@[i], com, m, allow_pat_path)),
        Pat::StructPat { path } => b matches Pat::StructPat { path: bp }
            && path_rewrites_to(path, bp, com, m),
        Pat::TupleStructPat { path } => b matches Pat::TupleStructPat { path: bp }
            && path_rewrites_to(path, bp, com, m),
        Pat::PathPat { qself, path } => b matches Pat::PathPat { qself: bq, path: bp }
            && bq == qself
            && (if !qself && allow_pat_path {
                path_rewrites_to(path, bp, com, m)
            } else {
                bp.names() == path.names()
            }),
        Pat::Other => b is Other,
    }
}

/// Candidates of a concatenation are the concatenated candidates.
pub proof fn lemma_pats_candidates_concat(s: Seq<Pat>, t: Seq<Pat>, allow_pat_path: bool)
    ensures
        pats_candidates(s + t, allow_pat_path)
            == pats_candidates(s, allow_pat_path) + pats_candidates(t, allow_pat_path),
    decreases s,
{
    if s.len() == 0 {
        assert(s + t =~= t);
        assert(pats_candidates(s, allow_pat_path) + pats_candidates(t, allow_pat_path)
            =~= pats_candidates(t, allow_pat_path));
    } else {
        assert((s + t).len() > 0);
        assert((s + t)[0] == s[0]);
        assert((s + t).drop_first() =~= s.drop_first() + t);
        lemma_pats_candidates_concat(s.drop_first(), t, allow_pat_path);
        assert(pats_candidates(s + t, allow_pat_path)
            =~= pats_candidates(s, allow_pat_path) + pats_candidates(t, allow_pat_path));
    }
}

/// Committing twice over split candidates is committing once over all.
pub proof fn lemma_committed_compose(
    reg: Option<(Seq<char>, int)>,
    c1: Seq<(Seq<char>, int)>,
    c2: Seq<(Seq<char>, int)>,
)
    ensures
        committed_shape(committed_shape(reg, c1), c2) == committed_shape(reg, c1 + c2),
{
    if reg is Some {
    } else if c1.len() > 0 {
        assert((c1 + c2)[0] == c1[0]);
    } else {
        assert(c1 + c2 =~= c2);
    }
}

/// Membership in a concatenation splits over its halves.
pub proof fn lemma_contains_concat(
    a: Seq<(Seq<char>, int)>,
    b: Seq<(Seq<char>, int)>,
    x: (Seq<char>, int),
)
    ensures
        (a + b).contains(x) == (a.contains(x) || b.contains(x)),
{
    if (a + b).contains(x) {
        let i = choose|i: int| 0 <= i < (a + b).len() && (a + b)[i] == x;
        if i < a.len() {
            assert(a[i] == x);
        } else {
            assert(b[i - a.len()] == x);
        }
    }
    if a.contains(x) {
        let i = choose|i: int| 0 <= i < a.len() && a[i] == x;
        assert((a + b)[i] == x);
    }
    if b.contains(x) {
        let i = choose|i: int| 0 <= i < b.len() && b[i] == x;
        assert((a + b)[a.len() + i] == x);
    }
}

/// If a sequence of patterns offers no candidate, neither does any element.
pub proof fn lemma_pats_candidates_empty(ps: Seq<Pat>, allow_pat_path: bool, i: int)
    requires
        pats_candidates(ps, allow_pat_path).len() == 0,
        0 <= i < ps.len(),
    ensures
        pat_candidates(ps[i], allow_pat_path).len() == 0,
    decreases ps,
{
    if i > 0 {
        lemma_pats_candidates_empty(ps.drop_first(), allow_pat_path, i - 1);
    }
}

/// A pattern without candidates rewrites the same way under any commitment.
pub proof fn lemma_pat_rewrites_mono(
    a: Pat,
    b: Pat,
    com1: Option<(Seq<char>, int)>,
    com2: Option<(Seq<char>, int)>,
    m: Mutability,
    allow_pat_path: bool,
)
    requires
        pat_rewrites_to(a, b, com1, m, allow_pat_path),
        pat_candidates(a, allow_pat_path).len() == 0,
    ensures
        pat_rewrites_to(a, b, com2, m, allow_pat_path),
    decreases a,
{
    match a {
        Pat::Binding { name, subpat } => match (subpat, b) {
            (Some(sub), Pat::Binding { name: bn, subpat: Some(bs) }) => {
                lemma_pat_rewrites_mono(*sub, *bs, com1, com2, m, allow_pat_path);
            }
            _ => {}
        },
        Pat::Ref { inner } => match b {
            Pat::Ref { inner: bi } => {
                lemma_pat_rewrites_mono(*inner, *bi, com1, com2, m, allow_pat_path);
            }
            _ => {}
        },
        Pat::BoxPat { inner } => match b {
            Pat::BoxPat { inner: bi } => {
                lemma_pat_rewrites_mono(*inner, *bi, com1, com2, m, allow_pat_path);
            }
            _ => {}
        },
        Pat::Ascribed { inner } => match b {
            Pat::Ascribed { inner: bi } => {
                lemma_pat_rewrites_mono(*inner, *bi, com1, com2, m, allow_pat_path);
            }
            _ => {}
        },
        Pat::Or { cases } => match b {
            Pat::Or { cases: bc } => {
                assert forall|i: int| 0 <= i < cases@.len()
                    implies pat_rewrites_to(#[trigger] cases@[i], bc@[i], com2, m, allow_pat_path) by {
                    assert(pat_rewrites_to(cases@[i], bc@[i], com1, m, allow_pat_path));
                    lemma_pats_candidates_empty(cases@, allow_pat_path, i);
                    lemma_pat_rewrites_mono(cases@[i], bc@[i], com1, com2, m, allow_pat_path);
                }
            }
            _ => {}
        },
        Pat::StructPat { path } => {
            assert(path_shape(path) is None);
        }
        Pat::TupleStructPat { path } => {
            assert(path_shape(path) is None);
        }
        Pat::PathPat { qself, path } => {
            if !qself && allow_pat_path {
                assert(path_shape(path) is None);
            }
        }
        Pat::Other => {}
    }
}

/// A fresh pass over some candidates rewrites something exactly when there
/// is a candidate at all.
pub proof fn lemma_fresh_rewrites_any(cands: Seq<(Seq<char>, int)>)
    ensures
        rewrites_any(cands, committed_shape(None, cands)) == (cands.len() > 0),
{
    if cands.len() > 0 {
        assert(cands[0] == cands[0]);
        assert(cands.contains(cands[0]));
    }
}

/// Rewriting keeps the number of candidates of a pattern.
pub proof fn lemma_pat_cands_len(
    a: Pat,
    b: Pat,
    com: Option<(Seq<char>, int)>,
    m: Mutability,
    allow_pat_path: bool,
)
    requires
        pat_rewrites_to(a, b, com, m, allow_pat_path),
    ensures
        pat_candidates(b, allow_pat_path).len() == pat_candidates(a, allow_pat_path).len(),
    decreases a,
{
    match (a, b) {
        (Pat::Binding { subpat: Some(sub), .. }, Pat::Binding { subpat: Some(bs), .. }) => {
            lemma_pat_cands_len(*sub, *bs, com, m, allow_pat_path);
        }
        (Pat::Ref { inner }, Pat::Ref { inner: bi }) => {
            lemma_pat_cands_len(*inner, *bi, com, m, allow_pat_path);
        }
        (Pat::BoxPat { inner }, Pat::BoxPat { inner: bi }) => {
            lemma_pat_cands_len(*inner, *bi, com, m, allow_pat_path);
        }
        (Pat::Ascribed { inner }, Pat::Ascribed { inner: bi }) => {
            lemma_pat_cands_len(*inner, *bi, com, m, allow_pat_path);
        }
        (Pat::Or { cases }, Pat::Or { cases: bc }) => {
            lemma_pats_cands_len(cases@, bc@, com, m, allow_pat_path);
        }
        (Pat::StructPat { path }, Pat::StructPat { path: bp }) => {
            assert(bp.names().len() == bp.segments@.len());
            assert(path.names().len() == path.segments@.len());
        }
        (Pat::TupleStructPat { path }, Pat::TupleStructPat { path: bp }) => {
            assert(bp.names().len() == bp.segments@.len());
            assert(path.names().len() == path.segments@.len());
        }
        (Pat::PathPat { qself, path }, Pat::PathPat { qself: bq, path: bp }) => {
            assert(bp.names().len() == bp.segments@.len());
            assert(path.names().len() == path.segments@.len());
        }
        _ => {}
    }
}

/// Rewriting keeps the number of candidates of a sequence of patterns.
pub proof fn lemma_pats_cands_len(
    a: Seq<Pat>,
    b: Seq<Pat>,
    com: Option<(Seq<char>, int)>,
    m: Mutability,
    allow_pat_path: bool,
)
    requires
        b.len() == a.len(),
        forall|i: int| #![trigger a[i]] 0 <= i < a.len()
            ==> pat_rewrites_to(a[i], b[i], com, m, allow_pat_path),
    ensures
        pats_candidates(b, allow_pat_path).len() == pats_candidates(a, allow_pat_path).len(),
    decreases a,
{
    if a.len() > 0 {
        lemma_pat_cands_len(a[0], b[0], com, m, allow_pat_path);
        assert forall|i: int| #![trigger a.drop_first()[i]] 0 <= i < a.drop_first().len()
            implies pat_rewrites_to(
                a.drop_first()[i],
                b.drop_first()[i],
                com,
                m,
                allow_pat_path,
            ) by {
            assert(a.drop_first()[i] == a[i + 1]);
            assert(b.drop_first()[i] == b[i + 1]);
        }
        lemma_pats_cands_len(a.drop_first(), b.drop_first(), com, m, allow_pat_path);
    }
}

/// The path shape committed to during one rewrite pass.
pub struct RegisteredPath {
    pub name: Ident,
    pub len: usize,
}

/// Transient state of one top-level rewrite call: the single registered path
/// shape, whether anything was rewritten yet, and the mode.
pub struct Context {
    pub register: Option<RegisteredPath>,
    pub replaced: bool,
    pub mutability: Mutability,
}

impl Context {
    /// A fresh context: nothing registered, nothing replaced.
    pub fn new(mutability: Mutability) -> (r: Context)
        ensures
            r.register is None,
            !r.replaced,
            r.mutability == mutability,
    {
        Context { register: None, replaced: false, mutability }
    }

    /// Register a path shape, unless one is registered already: the single
    /// slot is never overwritten.
    pub fn update(&mut self, ident: &Ident, len: usize)
        ensures
            final(self).replaced == old(self).replaced,
            final(self).mutability == old(self).mutability,
            reg_shape(final(self).register) == committed_shape(
                reg_shape(old(self).register),
                seq![(ident@, len as int)],
            ),
    {
        if self.register.is_none() {
            self.register = Some(RegisteredPath { name: ident.clone_ident(), len });
        }
    }

    /// Whether the registered shape is exactly (`ident`, `len`).
    pub fn compare_paths(&self, ident: &Ident, len: usize) -> (r: bool)
        ensures
            r == (reg_shape(self.register) == Some((ident@, len as int))),
    {
        match &self.register {
            Some(rp) => rp.len == len && rp.name.eq_ident(ident),
            None => false,
        }
    }

    /// Rewrite one path: if its shape is the registered one, or nothing is
    /// registered yet and the shape is a struct or enum variant shape, the
    /// leading segment becomes its projection name and the shape is
    /// registered; otherwise the path is returned unchanged.
    pub fn replace_path(&mut self, path: Path) -> (r: Path)
        ensures
            final(self).mutability == old(self).mutability,
            reg_shape(final(self).register) == committed_shape(
                reg_shape(old(self).register),
                shape_seq(path_shape(path)),
            ),
            final(self).replaced == (old(self).replaced || rewrites_any(
                shape_seq(path_shape(path)),
                committed_shape(reg_shape(old(self).register), shape_seq(path_shape(path))),
            )),
            path_rewrites_to(
                path,
                r,
                committed_shape(reg_shape(old(self).register), shape_seq(path_shape(path))),
                old(self).mutability,
            ),
    {
        let ghost path0 = path;
        let len = path.segments.len();
        if !(len == 1 || len == 2) {
            assert(path_shape(path0) is None);
            return path;
        }
        assert(path_shape(path0) == Some((path.segments@[0]@, len as int)));
        let is_fresh = self.register.is_none();
        let matches_reg = self.compare_paths(&path.segments[0], len);
        if is_fresh || matches_reg {
            self.update(&path.segments[0], len);
            self.replaced = true;
            let new0 = proj_ident(&path.segments[0], self.mutability);
            let mut segments = path.segments;
            let old0 = segments.remove(0);
            segments.insert(0, new0);
            let r = Path { segments };
            proof {
                assert(r.segments@ =~= path0.segments@.update(0, r.segments@[0]));
                assert(r.segments@[0]@ == proj_name(path0.names()[0], old(self).mutability));
                assert forall|i: int| 0 <= i < r.names().len() implies r.names()[i]
                    == path0.names().update(0, proj_name(path0.names()[0], old(self).mutability))[i] by {
                    assert(r.names()[i] == r.segments@[i]@);
                }
                assert(r.names() =~= path0.names().update(
                    0,
                    proj_name(path0.names()[0], old(self).mutability),
                ));
                let sh = (path0.segments@[0]@, len as int);
                assert(shape_seq(path_shape(path0))[0] == sh);
                assert(committed_shape(
                    reg_shape(old(self).register),
                    shape_seq(path_shape(path0)),
                ) == Some(sh));
                assert(rewrites_any(
                    shape_seq(path_shape(path0)),
                    committed_shape(reg_shape(old(self).register), shape_seq(path_shape(path0))),
                ));
            }
            r
        } else {
            assert(reg_shape(self.register) is Some);
            assert(reg_shape(self.register) != Some((path.segments@[0]@, len as int)));
            path
        }
    }

    /// Rewrite one pattern tree under this context: descend through binding,
    /// reference, box and ascription wrappers and into every alternative of
    /// an or-pattern, and rewrite the path of each struct, tuple-struct or
    /// (where allowed) bare path pattern through `replace_path`.
    pub fn replace_pat(&mut self, pat: Pat, allow_pat_path: bool) -> (r: Pat)
        ensures
            final(self).mutability == old(self).mutability,
            reg_shape(final(self).register) == committed_shape(
                reg_shape(old(self).register),
                pat_candidates(pat, allow_pat_path),
            ),
            final(self).replaced == (old(self).replaced || rewrites_any(
                pat_candidates(pat, allow_pat_path),
                committed_shape(reg_shape(old(self).register), pat_candidates(pat, allow_pat_path)),
            )),
            pat_rewrites_to(
                pat,
                r,
                committed_shape(reg_shape(old(self).register), pat_candidates(pat, allow_pat_path)),
                old(self).mutability,
                allow_pat_path,
            ),
        decreases pat,
    {
        let ghost pat0 = pat;
        match pat {
            Pat::Binding { name, subpat } => match subpat {
                Some(sub) => {
                    let ri = self.replace_pat(*sub, allow_pat_path);
                    Pat::Binding { name, subpat: Some(Box::new(ri)) }
                }
                None => Pat::Binding { name, subpat: None },
            },
            Pat::Ref { inner } => {
                let ri = self.replace_pat(*inner, allow_pat_path);
                Pat::Ref { inner: Box::new(ri) }
            }
            Pat::BoxPat { inner } => {
                let ri = self.replace_pat(*inner, allow_pat_path);
                Pat::BoxPat { inner: Box::new(ri) }
            }
            Pat::Ascribed { inner } => {
                let ri = self.replace_pat(*inner, allow_pat_path);
                Pat::Ascribed { inner: Box::new(ri) }
            }
            Pat::Or { cases } => {
                let mut rest = cases;
                let ghost orig = rest@;
                let ghost reg0 = reg_shape(old(self).register);
                let ghost rep0 = old(self).replaced;
                let ghost m0 = old(self).mutability;
                let mut out: Vec<Pat> = Vec::new();
                while rest.len() > 0
                    invariant
                        pat == pat0,
                        pat0 matches Pat::Or { cases: cv } && cv@ == orig,
                        out@.len() + rest@.len() == orig.len(),
                        rest@ == orig.subrange(out@.len() as int, orig.len() as int),
                        self.mutability == m0,
                        reg_shape(self.register) == committed_shape(
                            reg0,
                            pats_candidates(orig.subrange(0, out@.len() as int), allow_pat_path),
                        ),
                        self.replaced == (rep0 || rewrites_any(
                            pats_candidates(orig.subrange(0, out@.len() as int), allow_pat_path),
                            committed_shape(
                                reg0,
                                pats_candidates(orig.subrange(0, out@.len() as int), allow_pat_path),
                            ),
                        )),
                        forall|j: int| #![trigger out@[j]] 0 <= j < out@.len()
                            ==> pat_rewrites_to(
                                orig[j],
                                out@[j],
                                committed_shape(
                                    reg0,
                                    pats_candidates(
                                        orig.subrange(0, out@.len() as int),
                                        allow_pat_path,
                                    ),
                                ),
                                m0,
                                allow_pat_path,
                            ),
                    decreases rest@.len(),
                {
                    let ghost k = out@.len() as int;
                    let ghost prefix_cands = pats_candidates(orig.subrange(0, k), allow_pat_path);
                    let ghost com_k = committed_shape(reg0, prefix_cands);
                    let c = rest.remove(0);
                    proof {
                        assert(rest@ == orig.subrange(k + 1, orig.len() as int)) by {
                            assert(rest@ =~= orig.subrange(k + 1, orig.len() as int));
                        }
                        assert(c == orig[k]);
                        assert(decreases_to!(pat0 => pat0->Or_cases@[k]));
                    }
                    let rc = self.replace_pat(c, allow_pat_path);
                    proof {
                        let ck = pat_candidates(orig[k], allow_pat_path);
                        let prefix2 = orig.subrange(0, k + 1);
                        assert(prefix2 =~= orig.subrange(0, k) + seq![orig[k]]);
                        lemma_pats_candidates_concat(orig.subrange(0, k), seq![orig[k]], allow_pat_path);
                        let s1 = seq![orig[k]];
                        assert(s1.len() == 1 && s1[0] == orig[k]);
                        assert(s1.drop_first() =~= Seq::<Pat>::empty());
                        assert(pats_candidates(s1.drop_first(), allow_pat_path)
                            == Seq::<(Seq<char>, int)>::empty());
                        assert(pats_candidates(s1, allow_pat_path)
                            == ck + pats_candidates(s1.drop_first(), allow_pat_path));
                        assert(pats_candidates(s1, allow_pat_path) =~= ck);
                        assert(pats_candidates(prefix2, allow_pat_path) == prefix_cands + ck);
                        lemma_committed_compose(reg0, prefix_cands, ck);
                        let com_k1 = committed_shape(reg0, prefix_cands + ck);
                        assert(com_k1 == committed_shape(com_k, ck));
                        assert forall|j: int| #![trigger out@.push(rc)[j]] 0 <= j < k + 1
                            implies pat_rewrites_to(
                                orig[j],
                                out@.push(rc)[j],
                                com_k1,
                                m0,
                                allow_pat_path,
                            ) by {
                            if j < k {
                                assert(out@.push(rc)[j] == out@[j]);
                                assert(pat_rewrites_to(orig[j], out@[j], com_k, m0, allow_pat_path));
                                if com_k != com_k1 {
                                    assert(com_k is None);
                                    assert(prefix_cands.len() == 0);
                                    lemma_pats_candidates_empty(orig.subrange(0, k), allow_pat_path, j);
                                    assert(orig.subrange(0, k)[j] == orig[j]);
                                    lemma_pat_rewrites_mono(
                                        orig[j], out@[j], com_k, com_k1, m0, allow_pat_path,
                                    );
                                }
                            } else {
                                assert(out@.push(rc)[j] == rc);
                            }
                        }
                        // the replaced flag over the longer prefix
                        if com_k1 is Some {
                            lemma_contains_concat(prefix_cands, ck, com_k1->0);
                            if com_k is None {
                                assert(prefix_cands.len() == 0);
                                assert(!prefix_cands.contains(com_k1->0));
                            }
                        }
                    }
                    out.push(rc);
                }
                proof {
                    assert(orig.subrange(0, out@.len() as int) =~= orig);
                }
                Pat::Or { cases: out }
            }
            Pat::StructPat { path } => {
                let p2 = self.replace_path(path);
                Pat::StructPat { path: p2 }
            }
            Pat::TupleStructPat { path } => {
                let p2 = self.replace_path(path);
                Pat::TupleStructPat { path: p2 }
            }
            Pat::PathPat { qself, path } => {
                if !qself && allow_pat_path {
                    let p2 = self.replace_path(path);
                    Pat::PathPat { qself, path: p2 }
                } else {
                    Pat::PathPat { qself, path }
                }
            }
            Pat::Other => Pat::Other,
        }
    }
}

/// Whether rewriting this pattern would replace a path: true for a struct or
/// tuple-struct pattern whatever its path, for a bare unqualified path
/// pattern where those are allowed, and for any wrapper or or-pattern around
/// one of those.
pub open spec fn spec_is_replaceable(p: Pat, allow_pat_path: bool) -> bool
    decreases p,
{
    match p {
        Pat::Binding { name, subpat } => match subpat {
            Some(sub) => spec_is_replaceable(*sub, allow_pat_path),
            None => false,
        },
        Pat::Ref { inner } => spec_is_replaceable(*inner, allow_pat_path),
        Pat::BoxPat { inner } => spec_is_replaceable(*inner, allow_pat_path),
        Pat::Ascribed { inner } => spec_is_replaceable(*inner, allow_pat_path),
        Pat::Or { cases } => exists|i: int| 0 <= i < cases@.len()
            && spec_is_replaceable(#[trigger] cases@[i], allow_pat_path),
        Pat::StructPat { .. } => true,
        Pat::TupleStructPat { .. } => true,
        Pat::PathPat { qself, .. } => !qself && allow_pat_path,
        Pat::Other => false,
    }
}

/// Whether rewriting this pattern would replace a path.
pub fn is_replaceable(pat: &Pat, allow_pat_path: bool) -> (r: bool)
    ensures
        r == spec_is_replaceable(*pat, allow_pat_path),
    decreases *pat,
{
    match pat {
        Pat::Binding { subpat, .. } => match subpat {
            Some(sub) => is_replaceable(&*sub, allow_pat_path),
            None => false,
        },
        Pat::Ref { inner } => is_replaceable(&*inner, allow_pat_path),
        Pat::BoxPat { inner } => is_replaceable(&*inner, allow_pat_path),
        Pat::Ascribed { inner } => is_replaceable(&*inner, allow_pat_path),
        Pat::Or { cases } => {
            let n = cases.len();
            let mut i: usize = 0;
            while i < n
                invariant
                    *pat matches Pat::Or { cases: cv } && cv@ == cases@,
                    n == cases@.len(),
                    i <= n,
                    forall|j: int| 0 <= j < i
                        ==> !spec_is_replaceable(#[trigger] cases@[j], allow_pat_path),
                decreases n - i,
            {
                if is_replaceable(&cases[i], allow_pat_path) {
                    assert(spec_is_replaceable(cases@[i as int], allow_pat_path));
                    return true;
                }
                i += 1;
            }
            false
        }
        Pat::StructPat { .. } => true,
        Pat::TupleStructPat { .. } => true,
        Pat::PathPat { qself, .. } => !*qself && allow_pat_path,
        Pat::Other => false,
    }
}

} // verus!
