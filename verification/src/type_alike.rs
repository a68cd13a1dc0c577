//! Types that were built alike.
//!
//! Two values built from the same parts read the same everywhere, although
//! the vectors in them are different vectors. The lemmas here let one stand
//! for the other.

use crate::order::{arranged, deduplicated, law_stable_order_is_permutation, stable_order};
use crate::resolved_type::{ResolvedFunctionParam, ResolvedFunctionType, ResolvedType};
use crate::type_eq::{accepted, same_function, same_params, same_type, same_types};
use crate::type_key::{
    all_leaves, canonical_members, function_key, member_leaves, param_items, sorted_types,
    type_items, type_key, type_keys,
};
use vstd::prelude::*;

verus! {

/// Whether two types were built from the same parts.
pub open spec fn alike(a: ResolvedType, b: ResolvedType) -> bool
    decreases a, 0int,
{
    ||| a == b
    ||| match a {
        ResolvedType::Pointer { pointee, mutable } => match b {
            ResolvedType::Pointer { pointee: other, mutable: other_mutable } => mutable
                == other_mutable && alike(*pointee, *other),
            _ => false,
        },
        ResolvedType::Array(item, mutable) => match b {
            ResolvedType::Array(other, other_mutable) => mutable == other_mutable && alike(
                *item,
                *other,
            ),
            _ => false,
        },
        ResolvedType::SizedArray(item, size) => match b {
            ResolvedType::SizedArray(other, other_size) => size == other_size && alike(
                *item,
                *other,
            ),
            _ => false,
        },
        ResolvedType::Slice { item, mutable } => match b {
            ResolvedType::Slice { item: other, mutable: other_mutable } => mutable
                == other_mutable && alike(*item, *other),
            _ => false,
        },
        ResolvedType::Function(function) => match b {
            ResolvedType::Function(other) => alike_functions(*function, *other),
            _ => false,
        },
        ResolvedType::AnonymousEnum { shape, variant } => match b {
            ResolvedType::AnonymousEnum { shape: other, variant: other_variant } => variant
                == other_variant && alike_types(shape.members@, other.members@),
            _ => false,
        },
        _ => false,
    }
}

/// [`alike`] for function types.
pub open spec fn alike_functions(a: ResolvedFunctionType, b: ResolvedFunctionType) -> bool
    decreases a, 0int,
{
    &&& a.params@.len() == b.params@.len()
    &&& forall|i: int|
        0 <= i < a.params@.len() ==> alike(#[trigger] a.params@[i].ty, b.params@[i].ty)
    &&& alike(*a.return_type, *b.return_type)
    &&& a.is_variadic == b.is_variadic
    &&& a.self_mode == b.self_mode
    &&& a.calling_convention == b.calling_convention
}

/// [`alike`] for lists of types.
pub open spec fn alike_types(a: Seq<ResolvedType>, b: Seq<ResolvedType>) -> bool
    decreases a, 0int,
{
    a.len() == b.len() && forall|i: int| 0 <= i < a.len() ==> alike(#[trigger] a[i], b[i])
}

/// Types built alike have one key.
pub proof fn lemma_alike_key(a: &ResolvedType, b: &ResolvedType)
    requires
        alike(*a, *b),
    ensures
        type_key(*a) == type_key(*b),
    decreases a, 0int,
{
    if *a != *b {
        match (a, b) {
            (
                ResolvedType::Pointer { pointee: p, .. },
                ResolvedType::Pointer { pointee: q, .. },
            ) => lemma_alike_key(&**p, &**q),
            (ResolvedType::Array(p, _), ResolvedType::Array(q, _)) => lemma_alike_key(&**p, &**q),
            (ResolvedType::SizedArray(p, _), ResolvedType::SizedArray(q, _)) => lemma_alike_key(
                &**p,
                &**q,
            ),
            (ResolvedType::Slice { item: p, .. }, ResolvedType::Slice { item: q, .. }) => {
                lemma_alike_key(&**p, &**q);
            },
            (ResolvedType::Function(f), ResolvedType::Function(g)) => {
                lemma_alike_function_key(&**f, &**g);
            },
            (
                ResolvedType::AnonymousEnum { shape: c, .. },
                ResolvedType::AnonymousEnum { shape: d, .. },
            ) => {
                assert(alike_types(c.members@, d.members@));
                lemma_alike_items(c.members@, d.members@);
            },
            _ => {},
        }
    }
}

proof fn lemma_alike_function_key(f: &ResolvedFunctionType, g: &ResolvedFunctionType)
    requires
        alike_functions(*f, *g),
    ensures
        function_key(*f) == function_key(*g),
    decreases f, 0int,
{
    lemma_alike_param_items(f.params@, g.params@);
    lemma_alike_key(&*f.return_type, &*g.return_type);
}

proof fn lemma_alike_param_items(a: Seq<ResolvedFunctionParam>, b: Seq<ResolvedFunctionParam>)
    requires
        a.len() == b.len(),
        forall|i: int| 0 <= i < a.len() ==> alike(#[trigger] a[i].ty, b[i].ty),
    ensures
        param_items(a) == param_items(b),
    decreases a, 0int,
{
    if a.len() > 0 {
        assert(alike(a[0].ty, b[0].ty));
        lemma_alike_key(&a[0].ty, &b[0].ty);
        let p = a.drop_first();
        let q = b.drop_first();
        assert forall|i: int| 0 <= i < p.len() implies alike(#[trigger] p[i].ty, q[i].ty) by {
            assert(alike(a[i + 1].ty, b[i + 1].ty));
        }
        lemma_alike_param_items(p, q);
    }
}

proof fn lemma_alike_items(a: Seq<ResolvedType>, b: Seq<ResolvedType>)
    requires
        a.len() == b.len(),
        forall|i: int| 0 <= i < a.len() ==> alike(#[trigger] a[i], b[i]),
    ensures
        type_items(a) == type_items(b),
    decreases a, 0int,
{
    if a.len() > 0 {
        assert(alike(a[0], b[0]));
        lemma_alike_key(&a[0], &b[0]);
        let p = a.drop_first();
        let q = b.drop_first();
        assert forall|i: int| 0 <= i < p.len() implies alike(#[trigger] p[i], q[i]) by {
            assert(alike(a[i + 1], b[i + 1]));
        }
        lemma_alike_items(p, q);
    }
}

/// Types built alike are the same as the same types.
pub proof fn lemma_alike_same(a: &ResolvedType, b: &ResolvedType, c: &ResolvedType)
    requires
        alike(*a, *b),
    ensures
        same_type(*a, *c) == same_type(*b, *c),
    decreases a, 0int,
{
    if *a != *b {
        match (a, b) {
            (
                ResolvedType::Pointer { pointee: p, .. },
                ResolvedType::Pointer { pointee: q, .. },
            ) => {
                if let ResolvedType::Pointer { pointee: r, .. } = c {
                    lemma_alike_same(&**p, &**q, &**r);
                }
            },
            (ResolvedType::Array(p, _), ResolvedType::Array(q, _)) => {
                if let ResolvedType::Array(r, _) = c {
                    lemma_alike_same(&**p, &**q, &**r);
                }
            },
            (ResolvedType::SizedArray(p, _), ResolvedType::SizedArray(q, _)) => {
                if let ResolvedType::SizedArray(r, _) = c {
                    lemma_alike_same(&**p, &**q, &**r);
                }
            },
            (ResolvedType::Slice { item: p, .. }, ResolvedType::Slice { item: q, .. }) => {
                if let ResolvedType::Slice { item: r, .. } = c {
                    lemma_alike_same(&**p, &**q, &**r);
                }
            },
            (ResolvedType::Function(f), ResolvedType::Function(g)) => {
                if let ResolvedType::Function(h) = c {
                    lemma_alike_same_function(&**f, &**g, &**h);
                }
            },
            (
                ResolvedType::AnonymousEnum { shape: p, .. },
                ResolvedType::AnonymousEnum { shape: q, .. },
            ) => {
                if let ResolvedType::AnonymousEnum { shape: r, .. } = c {
                    assert(alike_types(p.members@, q.members@));
                    lemma_alike_same_types(p.members@, q.members@, r.members@);
                }
            },
            _ => {},
        }
    }
}

proof fn lemma_alike_same_function(
    f: &ResolvedFunctionType,
    g: &ResolvedFunctionType,
    h: &ResolvedFunctionType,
)
    requires
        alike_functions(*f, *g),
    ensures
        same_function(*f, *h) == same_function(*g, *h),
    decreases f, 0int,
{
    lemma_alike_same(&*f.return_type, &*g.return_type, &*h.return_type);
    if f.params@.len() == h.params@.len() {
        assert forall|i: int| 0 <= i < f.params@.len() implies same_type(
            #[trigger] f.params@[i].ty,
            h.params@[i].ty,
        ) == same_type(g.params@[i].ty, h.params@[i].ty) by {
            lemma_alike_same(&f.params@[i].ty, &g.params@[i].ty, &h.params@[i].ty);
        }
        if same_params(f.params@, h.params@) {
            assert forall|i: int| 0 <= i < g.params@.len() implies same_type(
                #[trigger] g.params@[i].ty,
                h.params@[i].ty,
            ) by {
                assert(same_type(f.params@[i].ty, h.params@[i].ty));
            }
            assert(same_params(g.params@, h.params@));
        }
        if same_params(g.params@, h.params@) {
            assert forall|i: int| 0 <= i < f.params@.len() implies same_type(
                #[trigger] f.params@[i].ty,
                h.params@[i].ty,
            ) by {
                assert(same_type(g.params@[i].ty, h.params@[i].ty));
            }
            assert(same_params(f.params@, h.params@));
        }
    } else {
        assert(!same_params(f.params@, h.params@));
        assert(!same_params(g.params@, h.params@));
    }
}

pub proof fn lemma_alike_same_types(
    a: Seq<ResolvedType>,
    b: Seq<ResolvedType>,
    c: Seq<ResolvedType>,
)
    requires
        a.len() == b.len(),
        forall|i: int| 0 <= i < a.len() ==> alike(#[trigger] a[i], b[i]),
    ensures
        same_types(a, c) == same_types(b, c),
    decreases a, 0int,
{
    if a.len() == c.len() {
        assert forall|i: int| 0 <= i < a.len() implies same_type(#[trigger] a[i], c[i])
            == same_type(b[i], c[i]) by {
            lemma_alike_same(&a[i], &b[i], &c[i]);
        }
        if same_types(a, c) {
            assert forall|i: int| 0 <= i < b.len() implies same_type(#[trigger] b[i], c[i]) by {
                assert(same_type(a[i], c[i]));
            }
        }
        if same_types(b, c) {
            assert forall|i: int| 0 <= i < a.len() implies same_type(#[trigger] a[i], c[i]) by {
                assert(same_type(b[i], c[i]));
            }
        }
    }
}

/// Types built alike accept the same values.
pub proof fn lemma_alike_accepts(a: &ResolvedType, b: &ResolvedType, c: &ResolvedType)
    requires
        alike(*a, *b),
    ensures
        accepted(*a, *c) == accepted(*b, *c),
    decreases a, 0int,
{
    lemma_alike_same(a, b, c);
    if *a != *b {
        match (a, b) {
            (
                ResolvedType::Pointer { pointee: p, .. },
                ResolvedType::Pointer { pointee: q, .. },
            ) => {
                if let ResolvedType::Pointer { pointee: r, .. } = c {
                    lemma_alike_accepts(&**p, &**q, &**r);
                }
            },
            (ResolvedType::Array(p, _), ResolvedType::Array(q, _)) => {
                if let ResolvedType::Array(r, _) = c {
                    lemma_alike_accepts(&**p, &**q, &**r);
                }
            },
            (ResolvedType::Slice { item: p, .. }, ResolvedType::Slice { item: q, .. }) => {
                if let ResolvedType::Slice { item: r, .. } = c {
                    lemma_alike_accepts(&**p, &**q, &**r);
                }
            },
            (
                ResolvedType::AnonymousEnum { shape: p, .. },
                ResolvedType::AnonymousEnum { shape: q, .. },
            ) => {
                if let ResolvedType::AnonymousEnum { shape: r, .. } = c {
                    assert(alike_types(p.members@, q.members@));
                    lemma_alike_same_types(p.members@, q.members@, r.members@);
                }
            },
            _ => {},
        }
    }
}

proof fn lemma_alike_leaves_one(a: &ResolvedType, b: &ResolvedType)
    requires
        alike(*a, *b),
    ensures
        alike_types(member_leaves(*a), member_leaves(*b)),
    decreases a, 0int,
{
    if *a == *b {
        lemma_alike_reflexive(member_leaves(*a));
    } else {
        match (a, b) {
            (
                ResolvedType::AnonymousEnum { shape: p, .. },
                ResolvedType::AnonymousEnum { shape: q, .. },
            ) => {
                assert(alike_types(p.members@, q.members@));
                lemma_alike_leaves(p.members@, q.members@);
            },
            _ => {
                assert(member_leaves(*a) == seq![*a]);
                assert(member_leaves(*b) == seq![*b]);
            },
        }
    }
}

proof fn lemma_alike_reflexive(types: Seq<ResolvedType>)
    ensures
        alike_types(types, types),
{
}

proof fn lemma_alike_leaves(a: Seq<ResolvedType>, b: Seq<ResolvedType>)
    requires
        a.len() == b.len(),
        forall|i: int| 0 <= i < a.len() ==> alike(#[trigger] a[i], b[i]),
    ensures
        alike_types(all_leaves(a), all_leaves(b)),
    decreases a, 0int,
{
    if a.len() > 0 {
        assert(alike(a[0], b[0]));
        lemma_alike_leaves_one(&a[0], &b[0]);
        let p = a.drop_first();
        let q = b.drop_first();
        assert forall|i: int| 0 <= i < p.len() implies alike(#[trigger] p[i], q[i]) by {
            assert(alike(a[i + 1], b[i + 1]));
        }
        lemma_alike_leaves(p, q);
        let u = member_leaves(a[0]);
        let v = member_leaves(b[0]);
        let x = all_leaves(p);
        let y = all_leaves(q);
        assert(all_leaves(a) == u + x);
        assert(all_leaves(b) == v + y);
        assert forall|i: int| 0 <= i < (u + x).len() implies alike(
            #[trigger] (u + x)[i],
            (v + y)[i],
        ) by {
            if i < u.len() {
                assert(alike(u[i], v[i]));
            } else {
                assert(alike(x[i - u.len()], y[i - u.len()]));
            }
        }
    }
}

proof fn lemma_alike_dedup(a: Seq<ResolvedType>, b: Seq<ResolvedType>)
    requires
        alike_types(a, b),
    ensures
        alike_types(
            deduplicated(a, |x: ResolvedType, y: ResolvedType| same_type(x, y)),
            deduplicated(b, |x: ResolvedType, y: ResolvedType| same_type(x, y)),
        ),
    decreases a.len(),
{
    let same = |x: ResolvedType, y: ResolvedType| same_type(x, y);
    if a.len() > 0 {
        let p = a.drop_last();
        let q = b.drop_last();
        assert(alike_types(p, q)) by {
            assert forall|i: int| 0 <= i < p.len() implies alike(#[trigger] p[i], q[i]) by {
                assert(alike(a[i], b[i]));
            }
        }
        lemma_alike_dedup(p, q);
        let u = deduplicated(p, same);
        let v = deduplicated(q, same);
        assert(alike(a[a.len() - 1], b[b.len() - 1]));
        if u.len() > 0 {
            assert(alike(u[u.len() - 1], v[v.len() - 1]));
            lemma_alike_same(&u.last(), &v.last(), &a.last());
            lemma_alike_same_right(&v.last(), &a.last(), &b.last());
        }
        assert forall|i: int| 0 <= i < deduplicated(a, same).len() implies alike(
            #[trigger] deduplicated(a, same)[i],
            deduplicated(b, same)[i],
        ) by {
            if i < u.len() {
                assert(alike(u[i], v[i]));
            }
        }
    }
}

/// Types built alike are the same as seen from the other side, too.
pub proof fn lemma_alike_same_right(c: &ResolvedType, a: &ResolvedType, b: &ResolvedType)
    requires
        alike(*a, *b),
    ensures
        same_type(*c, *a) == same_type(*c, *b),
{
    lemma_alike_same(a, b, c);
    if same_type(*c, *a) {
        crate::type_eq::law_same_type_symmetric(c, a);
        crate::type_eq::law_same_type_symmetric(b, c);
    }
    if same_type(*c, *b) {
        crate::type_eq::law_same_type_symmetric(c, b);
        crate::type_eq::law_same_type_symmetric(a, c);
    }
}

/// Member lists built alike have canonical members built alike.
pub proof fn lemma_alike_canonical(a: Seq<ResolvedType>, b: Seq<ResolvedType>)
    requires
        alike_types(a, b),
    ensures
        alike_types(canonical_members(a), canonical_members(b)),
{
    lemma_alike_leaves(a, b);
    let x = all_leaves(a);
    let y = all_leaves(b);
    assert forall|i: int| 0 <= i < x.len() implies #[trigger] type_keys(x)[i] == type_keys(y)[i] by {
        assert(alike(x[i], y[i]));
        lemma_alike_key(&x[i], &y[i]);
    }
    assert(type_keys(x) =~= type_keys(y));
    let order = stable_order(type_keys(x));
    law_stable_order_is_permutation(type_keys(x));
    assert(sorted_types(x) == arranged(x, order));
    assert(sorted_types(y) == arranged(y, order));
    assert(alike_types(sorted_types(x), sorted_types(y))) by {
        assert forall|i: int| 0 <= i < sorted_types(x).len() implies alike(
            #[trigger] sorted_types(x)[i],
            sorted_types(y)[i],
        ) by {
            assert(0 <= order[i] < x.len());
            assert(alike(x[order[i]], y[order[i]]));
        }
    }
    lemma_alike_dedup(sorted_types(x), sorted_types(y));
}

} // verus!
