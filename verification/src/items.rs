use vstd::prelude::*;
use crate::ast::{GenericArg, GenericParam, ItemImpl, ItemUse, Method, PathArgs, SelfTy, UseTree};
use crate::ident::{proj_ident, proj_name};
use crate::{Ident, Mutability, RewriteError};

verus! {

/// The first error a walk of a use tree meets: a glob or a renamed import
/// anywhere in it, in traversal order.
pub open spec fn use_err(t: UseTree) -> Option<RewriteError>
    decreases t,
{
    match t {
        UseTree::UsePath { ident, tree } => use_err(*tree),
        UseTree::UseName { .. } => None,
        UseTree::UseRename { .. } => Some(RewriteError::RenamedImport),
        UseTree::UseGlob => Some(RewriteError::GlobImport),
        UseTree::UseGroup { items } => use_items_err(items@),
    }
}

/// The first error among the trees of a group, in order.
pub open spec fn use_items_err(ts: Seq<UseTree>) -> Option<RewriteError>
    decreases ts,
{
    if ts.len() == 0 {
        None
    } else if use_err(ts[0]) is Some {
        use_err(ts[0])
    } else {
        use_items_err(ts.drop_first())
    }
}

/// How an accepted use tree is rewritten: every plain name leaf becomes its
/// projection name; path prefixes and groups keep their shape.
pub open spec fn use_rewrites_to(a: UseTree, b: UseTree, m: Mutability) -> bool
    decreases a,
{
    match a {
        UseTree::UsePath { ident, tree } => b matches UseTree::UsePath { ident: bi, tree: bt }
            && bi@ == ident@
            && use_rewrites_to(*tree, *bt, m),
        UseTree::UseName { ident } => b matches UseTree::UseName { ident: bi }
            && bi@ == proj_name(ident@, m),
        UseTree::UseRename { .. } => false,
        UseTree::UseGlob => false,
        UseTree::UseGroup { items } => b matches UseTree::UseGroup { items: bs }
            && bs@.len() == items@.len()
            && (forall|i: int| #![trigger items@[i]] 0 <= i < items@.len()
                ==> use_rewrites_to(items@[i], bs@[i], m)),
    }
}

proof fn lemma_use_items_err_at(ts: Seq<UseTree>, k: int)
    requires
        0 <= k < ts.len(),
        forall|j: int| 0 <= j < k ==> use_err(#[trigger] ts[j]) is None,
        use_err(ts[k]) is Some,
    ensures
        use_items_err(ts) == use_err(ts[k]),
    decreases ts,
{
    if k > 0 {
        lemma_use_items_err_at(ts.drop_first(), k - 1);
    }
}

proof fn lemma_use_items_err_none(ts: Seq<UseTree>)
    requires
        forall|j: int| 0 <= j < ts.len() ==> use_err(#[trigger] ts[j]) is None,
    ensures
        use_items_err(ts) is None,
    decreases ts,
{
    if ts.len() > 0 {
        lemma_use_items_err_none(ts.drop_first());
    }
}

/// Rewrite a use tree: plain name leaves become projection names; a glob or
/// a renamed import is refused; path prefixes and groups are walked, and the
/// first error anywhere aborts the whole rewrite.
pub fn replace_use_tree(t: UseTree, mutability: Mutability) -> (r: Result<UseTree, RewriteError>)
    ensures
        match r {
            Ok(b) => use_err(t) is None && use_rewrites_to(t, b, mutability),
            Err(e) => use_err(t) == Some(e),
        },
    decreases t,
{
    let ghost t0 = t;
    match t {
        UseTree::UsePath { ident, tree } => {
            let t2 = replace_use_tree(*tree, mutability)?;
            Ok(UseTree::UsePath { ident, tree: Box::new(t2) })
        }
        UseTree::UseName { ident } => Ok(UseTree::UseName {
            ident: proj_ident(&ident, mutability),
        }),
        UseTree::UseRename { .. } => Err(RewriteError::RenamedImport),
        UseTree::UseGlob => Err(RewriteError::GlobImport),
        UseTree::UseGroup { items } => {
            let mut rest = items;
            let ghost orig = rest@;
            let mut out: Vec<UseTree> = Vec::new();
            while rest.len() > 0
                invariant
                    t0 matches UseTree::UseGroup { items: cv } && cv@ == orig,
                    t == t0,
                    out@.len() + rest@.len() == orig.len(),
                    rest@ == orig.subrange(out@.len() as int, orig.len() as int),
                    forall|j: int| 0 <= j < out@.len() ==> use_err(#[trigger] orig[j]) is None,
                    forall|j: int| #![trigger out@[j]] 0 <= j < out@.len()
                        ==> use_rewrites_to(orig[j], out@[j], mutability),
                decreases rest@.len(),
            {
                let ghost k = out@.len() as int;
                let c = rest.remove(0);
                proof {
                    assert(rest@ =~= orig.subrange(k + 1, orig.len() as int));
                    assert(c == orig[k]);
                    assert(decreases_to!(t0 => t0->UseGroup_items@[k]));
                }
                match replace_use_tree(c, mutability) {
                    Ok(b) => {
                        out.push(b);
                    }
                    Err(e) => {
                        proof {
                            lemma_use_items_err_at(orig, k);
                        }
                        return Err(e);
                    }
                }
            }
            proof {
                lemma_use_items_err_none(orig);
            }
            Ok(UseTree::UseGroup { items: out })
        }
    }
}

/// Rewrite a use item through its tree.
pub fn replace_item_use(item: ItemUse, mutability: Mutability) -> (r: Result<ItemUse, RewriteError>)
    ensures
        match r {
            Ok(b) => use_err(item.tree) is None && use_rewrites_to(item.tree, b.tree, mutability),
            Err(e) => use_err(item.tree) == Some(e),
        },
{
    let ItemUse { tree } = item;
    let t2 = replace_use_tree(tree, mutability)?;
    Ok(ItemUse { tree: t2 })
}

/// The default lifetime name a fresh projection lifetime starts from.
pub open spec fn default_lifetime() -> Seq<char> {
    seq!['\'', 'p', 'i', 'n']
}

/// Whether a candidate lifetime name collides with a parameter list: some
/// declared lifetime starts with the candidate.
pub open spec fn lifetime_collides(cand: Seq<char>, params: Seq<GenericParam>) -> bool {
    exists|i: int| 0 <= i < params.len()
        && (#[trigger] params[i]) is LifetimeParam
        && cand.is_prefix_of(params[i]->LifetimeParam_name@)
}

/// A lifetime name that is fresh for an impl block: it extends the default
/// name and collides neither with the block's own generics nor with those of
/// any of its methods. In particular it equals no declared lifetime.
pub open spec fn fresh_lifetime_for(cand: Seq<char>, item: ItemImpl) -> bool {
    default_lifetime().is_prefix_of(cand)
    && !lifetime_collides(cand, item.generics@)
    && (forall|i: int| 0 <= i < item.methods@.len()
        ==> !lifetime_collides(cand, (#[trigger] item.methods@[i]).generics@))
}

/// How an impl block is rewritten: a non-path self type leaves it untouched;
/// otherwise the self type's final segment becomes its projection name, a
/// fresh lifetime is put first among the block's generic parameters, and the
/// same lifetime is put first among the self type's generic arguments,
/// creating the argument list where there was none.
pub open spec fn impl_rewrites_to(a: ItemImpl, b: ItemImpl, m: Mutability) -> bool {
    match a.self_ty {
        SelfTy::OtherTy => b == a,
        SelfTy::PathTy { last, args } => {
            &&& b.methods == a.methods
            &&& b.generics@.len() == a.generics@.len() + 1
            &&& b.generics@[0] matches GenericParam::LifetimeParam { name: lt }
                && fresh_lifetime_for(lt@, a)
                && (b.self_ty matches SelfTy::PathTy { last: bl, args: bargs }
                    && bl@ == proj_name(last@, m)
                    && (match args {
                        PathArgs::NoArgs => bargs matches PathArgs::AngleBracketed { args: ba }
                            && ba@.len() == 1
                            && (ba@[0] matches GenericArg::LifetimeArg { name: n } && n@ == lt@),
                        PathArgs::AngleBracketed { args: aa } => bargs
                            matches PathArgs::AngleBracketed { args: ba }
                            && ba@.len() == aa@.len() + 1
                            && (ba@[0] matches GenericArg::LifetimeArg { name: n } && n@ == lt@)
                            && ba@.drop_first() == aa@,
                        PathArgs::Parenthesized => false,
                    }))
            &&& b.generics@.drop_first() == a.generics@
        }
    }
}

/// Whether one character sequence is a prefix of another.
fn is_prefix(a: &Vec<char>, b: &Vec<char>) -> (r: bool)
    ensures
        r == a@.is_prefix_of(b@),
{
    if a.len() > b.len() {
        return false;
    }
    let n = a.len();
    let mut i: usize = 0;
    while i < n
        invariant
            n == a@.len(),
            n <= b@.len(),
            i <= n,
            forall|j: int| 0 <= j < i ==> a@[j] == b@[j],
        decreases n - i,
    {
        if a[i] != b[i] {
            assert(a@[i as int] != b@.subrange(0, a@.len() as int)[i as int]);
            return false;
        }
        i += 1;
    }
    assert(a@ =~= b@.subrange(0, a@.len() as int));
    true
}

/// Whether some declared lifetime of `params` starts with `cand`.
fn collides_with(cand: &Vec<char>, params: &Vec<GenericParam>) -> (r: bool)
    ensures
        r == lifetime_collides(cand@, params@),
{
    let n = params.len();
    let mut i: usize = 0;
    while i < n
        invariant
            n == params@.len(),
            i <= n,
            forall|j: int| 0 <= j < i ==> !((#[trigger] params@[j]) is LifetimeParam
                && cand@.is_prefix_of(params@[j]->LifetimeParam_name@)),
        decreases n - i,
    {
        match &params[i] {
            GenericParam::LifetimeParam { name } => {
                if is_prefix(cand, &name.chars) {
                    assert(lifetime_collides(cand@, params@));
                    return true;
                }
            }
            GenericParam::OtherParam => {}
        }
        i += 1;
    }
    false
}

/// The longest declared lifetime name in `params`, or zero.
spec fn max_lifetime_len(params: Seq<GenericParam>) -> int
    decreases params,
{
    if params.len() == 0 {
        0
    } else {
        let rest = max_lifetime_len(params.drop_first());
        match params[0] {
            GenericParam::LifetimeParam { name } => if name@.len() > rest {
                name@.len() as int
            } else {
                rest
            },
            GenericParam::OtherParam => rest,
        }
    }
}

proof fn lemma_lifetime_len_le_max(params: Seq<GenericParam>, i: int)
    requires
        0 <= i < params.len(),
        params[i] is LifetimeParam,
    ensures
        params[i]->LifetimeParam_name@.len() <= max_lifetime_len(params),
        max_lifetime_len(params.drop_first()) <= max_lifetime_len(params),
    decreases params,
{
    if i > 0 {
        lemma_lifetime_len_le_max(params.drop_first(), i - 1);
        if params.len() > 1 {
            lemma_max_monotone(params);
        }
    }
}

proof fn lemma_max_monotone(params: Seq<GenericParam>)
    requires
        params.len() > 0,
    ensures
        max_lifetime_len(params.drop_first()) <= max_lifetime_len(params),
{
}

/// Extending a candidate name keeps it clear of a parameter list.
pub proof fn lemma_clear_extends(c1: Seq<char>, c2: Seq<char>, params: Seq<GenericParam>)
    requires
        c1.is_prefix_of(c2),
        !lifetime_collides(c1, params),
    ensures
        !lifetime_collides(c2, params),
{
    assert forall|i: int| 0 <= i < params.len()
        && (#[trigger] params[i]) is LifetimeParam
        implies !c2.is_prefix_of(params[i]->LifetimeParam_name@) by {
        if c2.is_prefix_of(params[i]->LifetimeParam_name@) {
            let n = params[i]->LifetimeParam_name@;
            assert(c1.len() <= c2.len() <= n.len());
            assert forall|j: int| 0 <= j < c1.len() implies c1[j] == n[j] by {
                assert(c1[j] == c2.subrange(0, c1.len() as int)[j]);
                assert(c2[j] == n.subrange(0, c2.len() as int)[j]);
            }
            assert(c1 =~= n.subrange(0, c1.len() as int));
            assert(c1.is_prefix_of(n));
        }
    }
}

/// Lengthen `name` with underscores until no declared lifetime of `params`
/// starts with it.
fn determine_lifetime_name(name: &mut Vec<char>, params: &Vec<GenericParam>)
    ensures
        old(name)@.is_prefix_of(final(name)@),
        !lifetime_collides(final(name)@, params@),
{
    while collides_with(name, params)
        invariant
            old(name)@.is_prefix_of(name@),
        decreases max_lifetime_len(params@) + 1 - name@.len(),
    {
        proof {
            let i = choose|i: int| 0 <= i < params@.len()
                && (#[trigger] params@[i]) is LifetimeParam
                && name@.is_prefix_of(params@[i]->LifetimeParam_name@);
            lemma_lifetime_len_le_max(params@, i);
            assert(name@.len() <= max_lifetime_len(params@));
            assert(old(name)@.is_prefix_of(name@.push('_'))) by {
                assert(old(name)@ =~= name@.push('_').subrange(0, old(name)@.len() as int));
            }
        }
        name.push('_');
    }
}

/// Rewrite an impl block whose self type is a plain path type: rename the
/// final path segment to the projection name and insert a fresh lifetime,
/// first among the block's generic parameters and first among the self
/// type's generic arguments. Any other self type is left untouched. A
/// parenthesized argument list never reaches this rewrite.
pub fn replace_item_impl(item: ItemImpl, mutability: Mutability) -> (r: ItemImpl)
    requires
        !(item.self_ty matches SelfTy::PathTy { args: PathArgs::Parenthesized, .. }),
    ensures
        impl_rewrites_to(item, r, mutability),
{
    let ghost item0 = item;
    let ItemImpl { generics, self_ty, methods } = item;
    match self_ty {
        SelfTy::OtherTy => ItemImpl { generics, self_ty: SelfTy::OtherTy, methods },
        SelfTy::PathTy { last, args } => {
            let new_last = proj_ident(&last, mutability);
            let mut lname: Vec<char> = Vec::new();
            lname.push('\'');
            lname.push('p');
            lname.push('i');
            lname.push('n');
            assert(lname@ =~= default_lifetime());
            determine_lifetime_name(&mut lname, &generics);
            let ghost after_own = lname@;
            let n = methods.len();
            let mut i: usize = 0;
            while i < n
                invariant
                    n == methods@.len(),
                    i <= n,
                    methods@ == item0.methods@,
                    default_lifetime().is_prefix_of(lname@),
                    after_own.is_prefix_of(lname@),
                    !lifetime_collides(after_own, item0.generics@),
                    forall|j: int| 0 <= j < i
                        ==> !lifetime_collides(lname@, (#[trigger] methods@[j]).generics@),
                decreases n - i,
            {
                let ghost before = lname@;
                determine_lifetime_name(&mut lname, &methods[i].generics);
                proof {
                    assert forall|j: int| 0 <= j < i
                        implies !lifetime_collides(lname@, (#[trigger] methods@[j]).generics@) by {
                        lemma_clear_extends(before, lname@, methods@[j].generics@);
                    }
                    assert(after_own.is_prefix_of(lname@)) by {
                        assert(after_own =~= lname@.subrange(0, after_own.len() as int));
                    }
                    assert(default_lifetime().is_prefix_of(lname@)) by {
                        assert(default_lifetime() =~= lname@.subrange(
                            0,
                            default_lifetime().len() as int,
                        ));
                    }
                }
                i += 1;
            }
            proof {
                lemma_clear_extends(after_own, lname@, item0.generics@);
            }
            let lt_ident = Ident { chars: lname };
            let lt_for_args = lt_ident.clone_ident();
            let mut new_generics = generics;
            new_generics.insert(0, GenericParam::LifetimeParam { name: lt_ident });
            proof {
                assert(new_generics@.drop_first() =~= item0.generics@);
            }
            let new_args = match args {
                PathArgs::NoArgs => {
                    let mut av: Vec<GenericArg> = Vec::new();
                    av.push(GenericArg::LifetimeArg { name: lt_for_args });
                    PathArgs::AngleBracketed { args: av }
                }
                PathArgs::AngleBracketed { args: aa } => {
                    let mut av = aa;
                    av.insert(0, GenericArg::LifetimeArg { name: lt_for_args });
                    proof {
                        assert(av@.drop_first() =~= item0.self_ty->PathTy_args->AngleBracketed_args@);
                    }
                    PathArgs::AngleBracketed { args: av }
                }
                PathArgs::Parenthesized => {
                    proof {
                        assert(false);
                    }
                    PathArgs::Parenthesized
                }
            };
            ItemImpl {
                generics: new_generics,
                self_ty: SelfTy::PathTy { last: new_last, args: new_args },
                methods,
            }
        }
    }
}

} // verus!
