//! What tells generic declarations apart.

use crate::generics::pattern::{ArgumentPattern, SpecPattern, TypePattern};
use crate::order::{
    arranged, law_stable_order_is_permutation, lemma_deduplicated_covers,
    lemma_deduplicated_members, stable_order,
};
use crate::resolved_type::{
    ResolvedFunctionParam, ResolvedGenericArg, ResolvedSpecApplication, ResolvedType,
};
use crate::resolver::OverloadTemplate;
use crate::template::{
    bounds_on, canonical_bounds, canonical_types, describable, described, described_param,
    fixed_arg, fixed_args, fixed_bound, fixed_bounds, fixed_contribution, fixed_contributions,
    fixed_params, fixed_shape, fixed_shapes, holds_bound, keys_of_bounds, keys_of_types,
    same_arg_shape, same_arg_shapes, same_bound_shape, same_bound_shapes, same_descriptor,
    same_param_shape, same_shape, same_shapes, written_arg, written_args, written_bound, ArgShape,
    BoundShape, DescriptorShape, ParamShape, TypeShape,
};
use crate::type_eq::{law_same_type_reflexive, law_same_type_symmetric, law_same_type_transitive};
use vstd::prelude::*;

verus! {

/// A shape is the same as itself.
pub proof fn law_same_shape_reflexive(a: &TypeShape)
    ensures
        same_shape(*a, *a),
    decreases a, 0int,
{
    match a {
        TypeShape::Param(_) => {},
        TypeShape::Fixed(ty) => {
            law_same_type_reflexive(ty);
        },
        TypeShape::Pointer(x, _) => {
            law_same_shape_reflexive(&**x);
        },
        TypeShape::Slice(x, _) => {
            law_same_shape_reflexive(&**x);
        },
        TypeShape::Array(x, _) => {
            law_same_shape_reflexive(&**x);
        },
        TypeShape::SizedArray(x, p) => {
            law_same_shape_reflexive(&**x);
            lemma_arg_reflexive(&**p);
        },
        TypeShape::SpecObject(x, _) => {
            lemma_bounds_reflexive(*x);
        },
        TypeShape::AnonymousEnum(x) => {
            lemma_shapes_reflexive(*x);
        },
        TypeShape::Function(p, r, _, _) => {
            lemma_shapes_reflexive(*p);
            law_same_shape_reflexive(&**r);
        },
        TypeShape::Nominal(_, x) => {
            lemma_args_reflexive(*x);
        },
    }
}

proof fn lemma_arg_reflexive(a: &ArgShape)
    ensures
        same_arg_shape(*a, *a),
    decreases a, 0int,
{
    match a {
        ArgShape::Type(x) => {
            law_same_shape_reflexive(x);
        },
        _ => {},
    }
}

proof fn lemma_args_reflexive(a: Seq<ArgShape>)
    ensures
        same_arg_shapes(a, a),
    decreases a, 0int,
{
    assert forall|i: int| 0 <= i < a.len() implies same_arg_shape(#[trigger] a[i], a[i]) by {
        lemma_arg_reflexive(&a[i]);
    }
}

proof fn lemma_shapes_reflexive(a: Seq<TypeShape>)
    ensures
        same_shapes(a, a),
    decreases a, 0int,
{
    assert forall|i: int| 0 <= i < a.len() implies same_shape(#[trigger] a[i], a[i]) by {
        law_same_shape_reflexive(&a[i]);
    }
}

/// A bound is the same as itself.
pub proof fn law_same_bound_reflexive(a: &BoundShape)
    ensures
        same_bound_shape(*a, *a),
    decreases a, 0int,
{
    lemma_args_reflexive(a.args);
}

proof fn lemma_bounds_reflexive(a: Seq<BoundShape>)
    ensures
        same_bound_shapes(a, a),
    decreases a, 0int,
{
    assert forall|i: int| 0 <= i < a.len() implies same_bound_shape(#[trigger] a[i], a[i]) by {
        law_same_bound_reflexive(&a[i]);
    }
}

/// Shapes are the same both ways.
pub proof fn law_same_shape_symmetric(a: &TypeShape, b: &TypeShape)
    requires
        same_shape(*a, *b),
    ensures
        same_shape(*b, *a),
    decreases a, 0int,
{
    match (a, b) {
        (TypeShape::Fixed(x), TypeShape::Fixed(y)) => {
            law_same_type_symmetric(x, y);
        },
        (TypeShape::Pointer(x, _), TypeShape::Pointer(y, _)) => {
            law_same_shape_symmetric(&**x, &**y);
        },
        (TypeShape::Slice(x, _), TypeShape::Slice(y, _)) => {
            law_same_shape_symmetric(&**x, &**y);
        },
        (TypeShape::Array(x, _), TypeShape::Array(y, _)) => {
            law_same_shape_symmetric(&**x, &**y);
        },
        (TypeShape::SizedArray(x, p), TypeShape::SizedArray(y, q)) => {
            law_same_shape_symmetric(&**x, &**y);
            lemma_arg_symmetric(&**p, &**q);
        },
        (TypeShape::SpecObject(x, _), TypeShape::SpecObject(y, _)) => {
            lemma_bounds_symmetric(*x, *y);
        },
        (TypeShape::AnonymousEnum(x), TypeShape::AnonymousEnum(y)) => {
            lemma_shapes_symmetric(*x, *y);
        },
        (TypeShape::Function(p, r, _, _), TypeShape::Function(q, s, _, _)) => {
            lemma_shapes_symmetric(*p, *q);
            law_same_shape_symmetric(&**r, &**s);
        },
        (TypeShape::Nominal(_, x), TypeShape::Nominal(_, y)) => {
            lemma_args_symmetric(*x, *y);
        },
        _ => {},
    }
}

proof fn lemma_arg_symmetric(a: &ArgShape, b: &ArgShape)
    requires
        same_arg_shape(*a, *b),
    ensures
        same_arg_shape(*b, *a),
    decreases a, 0int,
{
    match (a, b) {
        (ArgShape::Type(x), ArgShape::Type(y)) => {
            law_same_shape_symmetric(x, y);
        },
        _ => {},
    }
}

proof fn lemma_args_symmetric(a: Seq<ArgShape>, b: Seq<ArgShape>)
    requires
        same_arg_shapes(a, b),
    ensures
        same_arg_shapes(b, a),
    decreases a, 0int,
{
    assert forall|i: int| 0 <= i < b.len() implies same_arg_shape(#[trigger] b[i], a[i]) by {
        assert(same_arg_shape(a[i], b[i]));
        lemma_arg_symmetric(&a[i], &b[i]);
    }
}

proof fn lemma_shapes_symmetric(a: Seq<TypeShape>, b: Seq<TypeShape>)
    requires
        same_shapes(a, b),
    ensures
        same_shapes(b, a),
    decreases a, 0int,
{
    assert forall|i: int| 0 <= i < b.len() implies same_shape(#[trigger] b[i], a[i]) by {
        assert(same_shape(a[i], b[i]));
        law_same_shape_symmetric(&a[i], &b[i]);
    }
}

/// Bounds are the same both ways.
pub proof fn law_same_bound_symmetric(a: &BoundShape, b: &BoundShape)
    requires
        same_bound_shape(*a, *b),
    ensures
        same_bound_shape(*b, *a),
    decreases a, 0int,
{
    lemma_args_symmetric(a.args, b.args);
}

proof fn lemma_bounds_symmetric(a: Seq<BoundShape>, b: Seq<BoundShape>)
    requires
        same_bound_shapes(a, b),
    ensures
        same_bound_shapes(b, a),
    decreases a, 0int,
{
    assert forall|i: int| 0 <= i < b.len() implies same_bound_shape(#[trigger] b[i], a[i]) by {
        assert(same_bound_shape(a[i], b[i]));
        law_same_bound_symmetric(&a[i], &b[i]);
    }
}

/// Shapes that are the same as one are the same.
pub proof fn law_same_shape_transitive(a: &TypeShape, b: &TypeShape, c: &TypeShape)
    requires
        same_shape(*a, *b),
        same_shape(*b, *c),
    ensures
        same_shape(*a, *c),
    decreases a, 0int,
{
    match (a, b, c) {
        (TypeShape::Fixed(x), TypeShape::Fixed(y), TypeShape::Fixed(z)) => {
            law_same_type_transitive(x, y, z);
        },
        (TypeShape::Pointer(x, _), TypeShape::Pointer(y, _), TypeShape::Pointer(z, _)) => {
            law_same_shape_transitive(&**x, &**y, &**z);
        },
        (TypeShape::Slice(x, _), TypeShape::Slice(y, _), TypeShape::Slice(z, _)) => {
            law_same_shape_transitive(&**x, &**y, &**z);
        },
        (TypeShape::Array(x, _), TypeShape::Array(y, _), TypeShape::Array(z, _)) => {
            law_same_shape_transitive(&**x, &**y, &**z);
        },
        (
            TypeShape::SizedArray(x, p),
            TypeShape::SizedArray(y, q),
            TypeShape::SizedArray(z, r),
        ) => {
            law_same_shape_transitive(&**x, &**y, &**z);
            lemma_arg_transitive(&**p, &**q, &**r);
        },
        (
            TypeShape::SpecObject(x, _),
            TypeShape::SpecObject(y, _),
            TypeShape::SpecObject(z, _),
        ) => {
            lemma_bounds_transitive(*x, *y, *z);
        },
        (
            TypeShape::AnonymousEnum(x),
            TypeShape::AnonymousEnum(y),
            TypeShape::AnonymousEnum(z),
        ) => {
            lemma_shapes_transitive(*x, *y, *z);
        },
        (
            TypeShape::Function(p, u, _, _),
            TypeShape::Function(q, v, _, _),
            TypeShape::Function(r, w, _, _),
        ) => {
            lemma_shapes_transitive(*p, *q, *r);
            law_same_shape_transitive(&**u, &**v, &**w);
        },
        (TypeShape::Nominal(_, x), TypeShape::Nominal(_, y), TypeShape::Nominal(_, z)) => {
            lemma_args_transitive(*x, *y, *z);
        },
        _ => {},
    }
}

proof fn lemma_arg_transitive(a: &ArgShape, b: &ArgShape, c: &ArgShape)
    requires
        same_arg_shape(*a, *b),
        same_arg_shape(*b, *c),
    ensures
        same_arg_shape(*a, *c),
    decreases a, 0int,
{
    match (a, b, c) {
        (ArgShape::Type(x), ArgShape::Type(y), ArgShape::Type(z)) => {
            law_same_shape_transitive(x, y, z);
        },
        _ => {},
    }
}

proof fn lemma_args_transitive(a: Seq<ArgShape>, b: Seq<ArgShape>, c: Seq<ArgShape>)
    requires
        same_arg_shapes(a, b),
        same_arg_shapes(b, c),
    ensures
        same_arg_shapes(a, c),
    decreases a, 0int,
{
    assert forall|i: int| 0 <= i < a.len() implies same_arg_shape(#[trigger] a[i], c[i]) by {
        assert(same_arg_shape(a[i], b[i]));
        assert(same_arg_shape(b[i], c[i]));
        lemma_arg_transitive(&a[i], &b[i], &c[i]);
    }
}

proof fn lemma_shapes_transitive(a: Seq<TypeShape>, b: Seq<TypeShape>, c: Seq<TypeShape>)
    requires
        same_shapes(a, b),
        same_shapes(b, c),
    ensures
        same_shapes(a, c),
    decreases a, 0int,
{
    assert forall|i: int| 0 <= i < a.len() implies same_shape(#[trigger] a[i], c[i]) by {
        assert(same_shape(a[i], b[i]));
        assert(same_shape(b[i], c[i]));
        law_same_shape_transitive(&a[i], &b[i], &c[i]);
    }
}

/// Bounds that are the same as one are the same.
pub proof fn law_same_bound_transitive(a: &BoundShape, b: &BoundShape, c: &BoundShape)
    requires
        same_bound_shape(*a, *b),
        same_bound_shape(*b, *c),
    ensures
        same_bound_shape(*a, *c),
    decreases a, 0int,
{
    lemma_args_transitive(a.args, b.args, c.args);
}

proof fn lemma_bounds_transitive(a: Seq<BoundShape>, b: Seq<BoundShape>, c: Seq<BoundShape>)
    requires
        same_bound_shapes(a, b),
        same_bound_shapes(b, c),
    ensures
        same_bound_shapes(a, c),
    decreases a, 0int,
{
    assert forall|i: int| 0 <= i < a.len() implies same_bound_shape(#[trigger] a[i], c[i]) by {
        assert(same_bound_shape(a[i], b[i]));
        assert(same_bound_shape(b[i], c[i]));
        law_same_bound_transitive(&a[i], &b[i], &c[i]);
    }
}

/// A descriptor identifies the declaration it identifies.
pub proof fn law_same_descriptor_reflexive(a: &DescriptorShape)
    ensures
        same_descriptor(*a, *a),
{
    assert forall|i: int| 0 <= i < a.generics.len() implies same_param_shape(
        #[trigger] a.generics[i],
        a.generics[i],
    ) by {
        match &a.generics[i] {
            ParamShape::Type(bounds) => {
                lemma_bounds_reflexive(*bounds);
            },
            ParamShape::Comp(ty) => {
                law_same_shape_reflexive(ty);
            },
        }
    }
    lemma_shapes_reflexive(a.params);
    law_same_shape_reflexive(&a.return_type);
}

/// A canonical bound list holds the bounds it was made of, and no others.
pub proof fn law_canonical_bounds_hold_what_is_written(bounds: Seq<BoundShape>)
    ensures
        forall|i: int|
            0 <= i < bounds.len() ==> holds_bound(canonical_bounds(bounds), #[trigger] bounds[i]),
        forall|i: int|
            0 <= i < canonical_bounds(bounds).len() ==> bounds.contains(
                #[trigger] canonical_bounds(bounds)[i],
            ),
{
    let keys = keys_of_bounds(bounds);
    let order = stable_order(keys);
    let sorted = arranged(bounds, order);
    let same = |a: BoundShape, b: BoundShape| same_bound_shape(a, b);
    let kept = canonical_bounds(bounds);
    law_stable_order_is_permutation(keys);
    lemma_deduplicated_members(sorted, same);
    assert forall|i: int| 0 <= i < kept.len() implies bounds.contains(#[trigger] kept[i]) by {
        assert(kept.contains(kept[i]));
        assert(sorted.contains(kept[i]));
        let k = choose|k: int| 0 <= k < sorted.len() && sorted[k] == kept[i];
        assert(bounds[order[k]] == kept[i]);
    }
    assert forall|i: int| 0 <= i < bounds.len() implies holds_bound(
        kept,
        #[trigger] bounds[i],
    ) by {
        assert(order.contains(i));
        let k = choose|k: int| 0 <= k < order.len() && order[k] == i;
        assert(sorted[k] == bounds[i]);
        assert forall|x: BoundShape| #[trigger] sorted.contains(x) implies same(x, x) by {
            law_same_bound_reflexive(&x);
        }
        lemma_deduplicated_covers(sorted, same, k);
        let j = choose|j: int| 0 <= j < kept.len() && same(#[trigger] kept[j], sorted[k]);
        assert(same_bound_shape(kept[j], bounds[i]));
    }
}

/// The bounds of a parameter are those that are written for it, and no others.
pub proof fn law_bounds_are_the_written_ones(bounds: Seq<(usize, SpecPattern)>, index: int)
    ensures
        forall|k: int|
            0 <= k < bounds.len() && (#[trigger] bounds[k]).0 == index ==> holds_bound(
                bounds_on(bounds, index),
                written_bound(bounds[k].1),
            ),
        forall|i: int|
            0 <= i < bounds_on(bounds, index).len() ==> exists|k: int|
                0 <= k < bounds.len() && (#[trigger] bounds[k]).0 == index && written_bound(
                    bounds[k].1,
                ) == #[trigger] bounds_on(bounds, index)[i],
    decreases bounds.len(),
{
    if bounds.len() > 0 {
        let front = bounds.drop_last();
        let before = bounds_on(front, index);
        let all = bounds_on(bounds, index);
        let last = written_bound(bounds.last().1);
        law_bounds_are_the_written_ones(front, index);
        law_same_bound_reflexive(&last);
        assert forall|k: int| 0 <= k < bounds.len() && (#[trigger] bounds[k]).0
            == index implies holds_bound(all, written_bound(bounds[k].1)) by {
            if k < front.len() {
                assert(front[k].0 == index);
                let bound = written_bound(front[k].1);
                assert(holds_bound(before, bound));
                let j = choose|j: int|
                    0 <= j < before.len() && same_bound_shape(#[trigger] before[j], bound);
                assert(all[j] == before[j]);
            } else if !holds_bound(before, last) {
                assert(same_bound_shape(all[before.len() as int], last));
            }
        }
        assert forall|i: int| 0 <= i < all.len() implies exists|k: int|
            0 <= k < bounds.len() && (#[trigger] bounds[k]).0 == index && written_bound(
                bounds[k].1,
            ) == #[trigger] all[i] by {
            if i < before.len() {
                assert(all[i] == before[i]);
                let k = choose|k: int|
                    0 <= k < front.len() && (#[trigger] front[k]).0 == index && written_bound(
                        front[k].1,
                    ) == before[i];
                assert(bounds[k] == front[k]);
            } else {
                assert(bounds[bounds.len() - 1].0 == index);
            }
        }
    }
}

proof fn lemma_canonical_bounds_agree(a: Seq<BoundShape>, b: Seq<BoundShape>, i: int)
    requires
        same_bound_shapes(canonical_bounds(a), canonical_bounds(b)),
        0 <= i < a.len(),
    ensures
        holds_bound(b, a[i]),
{
    law_canonical_bounds_hold_what_is_written(a);
    law_canonical_bounds_hold_what_is_written(b);
    let p = canonical_bounds(a);
    let q = canonical_bounds(b);
    assert(holds_bound(p, a[i]));
    let j = choose|j: int| 0 <= j < p.len() && same_bound_shape(#[trigger] p[j], a[i]);
    assert(same_bound_shape(p[j], q[j]));
    law_same_bound_symmetric(&p[j], &q[j]);
    law_same_bound_transitive(&q[j], &p[j], &a[i]);
    assert(b.contains(q[j]));
    let k = choose|k: int| 0 <= k < b.len() && b[k] == q[j];
    assert(same_bound_shape(b[k], a[i]));
}

/// Declarations with different bounds have different descriptors: where the
/// descriptors identify one declaration, the same parameters are type
/// parameters, and each of those has the same bounds.
pub proof fn law_bounds_are_identity(a: OverloadTemplate, b: OverloadTemplate, index: int)
    requires
        describable(a),
        describable(b),
        same_descriptor(described(a), described(b)),
        0 <= index < a.generics@.len(),
    ensures
        a.generics@.len() == b.generics@.len(),
        a.generics@[index].comp() == b.generics@[index].comp(),
        !a.generics@[index].comp() ==> {
            let p = bounds_on(a.bounds@, index);
            let q = bounds_on(b.bounds@, index);
            &&& forall|i: int| 0 <= i < p.len() ==> holds_bound(q, #[trigger] p[i])
            &&& forall|i: int| 0 <= i < q.len() ==> holds_bound(p, #[trigger] q[i])
        },
{
    let x = described(a).generics[index];
    let y = described(b).generics[index];
    assert(described_param(a, index) is Some);
    assert(described_param(b, index) is Some);
    assert(same_param_shape(x, y));
    if !a.generics@[index].comp() {
        let p = bounds_on(a.bounds@, index);
        let q = bounds_on(b.bounds@, index);
        assert(same_bound_shapes(canonical_bounds(p), canonical_bounds(q)));
        lemma_bounds_symmetric(canonical_bounds(p), canonical_bounds(q));
        assert forall|i: int| 0 <= i < p.len() implies holds_bound(q, #[trigger] p[i]) by {
            lemma_canonical_bounds_agree(p, q, i);
        }
        assert forall|i: int| 0 <= i < q.len() implies holds_bound(p, #[trigger] q[i]) by {
            lemma_canonical_bounds_agree(q, p, i);
        }
    }
}

/// Whether a type names one of the declaration's own parameters anywhere.
pub open spec fn names_own(ty: TypeShape) -> bool
    decreases ty, 0int,
{
    match ty {
        TypeShape::Param(_) => true,
        TypeShape::Fixed(_) => false,
        TypeShape::Pointer(inner, _) => names_own(*inner),
        TypeShape::Slice(inner, _) => names_own(*inner),
        TypeShape::Array(inner, _) => names_own(*inner),
        TypeShape::SizedArray(inner, length) => names_own(*inner) || arg_names_own(*length),
        TypeShape::SpecObject(members, _) => exists|i: int|
            0 <= i < members.len() && bound_names_own(#[trigger] members[i]),
        TypeShape::AnonymousEnum(members) => some_names_own(members),
        TypeShape::Function(params, result, _, _) => some_names_own(params) || names_own(*result),
        TypeShape::Nominal(_, args) => args_name_own(args),
    }
}

/// [`names_own`] for one argument.
pub open spec fn arg_names_own(arg: ArgShape) -> bool
    decreases arg, 0int,
{
    match arg {
        ArgShape::Type(ty) => names_own(ty),
        ArgShape::Value(_) => false,
        ArgShape::ValueParam(_) => true,
    }
}

/// [`names_own`] for a bound.
pub open spec fn bound_names_own(bound: BoundShape) -> bool
    decreases bound, 0int,
{
    args_name_own(bound.args)
}

/// Whether some argument names one of the declaration's own parameters.
pub open spec fn args_name_own(args: Seq<ArgShape>) -> bool
    decreases args, 0int,
{
    exists|i: int| 0 <= i < args.len() && arg_names_own(#[trigger] args[i])
}

/// Whether some type names one of the declaration's own parameters.
pub open spec fn some_names_own(types: Seq<TypeShape>) -> bool
    decreases types, 0int,
{
    exists|i: int| 0 <= i < types.len() && names_own(#[trigger] types[i])
}

proof fn lemma_same_names_own(a: &TypeShape, b: &TypeShape)
    requires
        same_shape(*a, *b),
        names_own(*a),
    ensures
        names_own(*b),
    decreases a, 0int,
{
    match (a, b) {
        (TypeShape::Pointer(x, _), TypeShape::Pointer(y, _)) => {
            lemma_same_names_own(&**x, &**y);
        },
        (TypeShape::Slice(x, _), TypeShape::Slice(y, _)) => {
            lemma_same_names_own(&**x, &**y);
        },
        (TypeShape::Array(x, _), TypeShape::Array(y, _)) => {
            lemma_same_names_own(&**x, &**y);
        },
        (TypeShape::SizedArray(x, p), TypeShape::SizedArray(y, q)) => {
            if names_own(**x) {
                lemma_same_names_own(&**x, &**y);
            } else {
                lemma_same_arg_names_own(&**p, &**q);
            }
        },
        (TypeShape::SpecObject(x, _), TypeShape::SpecObject(y, _)) => {
            assert(same_bound_shapes(*x, *y));
            let i = choose|i: int| 0 <= i < x.len() && bound_names_own(#[trigger] x[i]);
            assert(same_bound_shape(x[i], y[i]));
            lemma_same_bound_names_own(&x[i], &y[i]);
        },
        (TypeShape::AnonymousEnum(x), TypeShape::AnonymousEnum(y)) => {
            lemma_same_list_names_own(*x, *y);
        },
        (TypeShape::Function(p, r, _, _), TypeShape::Function(q, s, _, _)) => {
            if some_names_own(*p) {
                lemma_same_list_names_own(*p, *q);
            } else {
                lemma_same_names_own(&**r, &**s);
            }
        },
        (TypeShape::Nominal(_, x), TypeShape::Nominal(_, y)) => {
            lemma_same_args_name_own(*x, *y);
        },
        _ => {},
    }
}

proof fn lemma_same_arg_names_own(a: &ArgShape, b: &ArgShape)
    requires
        same_arg_shape(*a, *b),
        arg_names_own(*a),
    ensures
        arg_names_own(*b),
    decreases a, 0int,
{
    match (a, b) {
        (ArgShape::Type(x), ArgShape::Type(y)) => {
            lemma_same_names_own(x, y);
        },
        _ => {},
    }
}

proof fn lemma_same_args_name_own(a: Seq<ArgShape>, b: Seq<ArgShape>)
    requires
        same_arg_shapes(a, b),
        args_name_own(a),
    ensures
        args_name_own(b),
    decreases a, 0int,
{
    let i = choose|i: int| 0 <= i < a.len() && arg_names_own(#[trigger] a[i]);
    assert(same_arg_shape(a[i], b[i]));
    lemma_same_arg_names_own(&a[i], &b[i]);
}

proof fn lemma_same_list_names_own(a: Seq<TypeShape>, b: Seq<TypeShape>)
    requires
        same_shapes(a, b),
        some_names_own(a),
    ensures
        some_names_own(b),
    decreases a, 0int,
{
    let i = choose|i: int| 0 <= i < a.len() && names_own(#[trigger] a[i]);
    assert(same_shape(a[i], b[i]));
    lemma_same_names_own(&a[i], &b[i]);
}

proof fn lemma_same_bound_names_own(a: &BoundShape, b: &BoundShape)
    requires
        same_bound_shape(*a, *b),
        bound_names_own(*a),
    ensures
        bound_names_own(*b),
    decreases a, 0int,
{
    lemma_same_args_name_own(a.args, b.args);
}

proof fn lemma_canonical_types_name_no_other(types: Seq<TypeShape>)
    requires
        !some_names_own(types),
    ensures
        !some_names_own(canonical_types(types)),
{
    let keys = keys_of_types(types);
    let order = stable_order(keys);
    let sorted = arranged(types, order);
    let same = |a: TypeShape, b: TypeShape| same_shape(a, b);
    let kept = canonical_types(types);
    law_stable_order_is_permutation(keys);
    lemma_deduplicated_members(sorted, same);
    assert forall|i: int| 0 <= i < kept.len() implies !names_own(#[trigger] kept[i]) by {
        assert(kept.contains(kept[i]));
        assert(sorted.contains(kept[i]));
        let k = choose|k: int| 0 <= k < sorted.len() && sorted[k] == kept[i];
        assert(types[order[k]] == kept[i]);
    }
}

/// A type that a declaration fixes names none of the declaration's own
/// parameters.
pub proof fn law_fixed_types_name_no_parameter(ty: &ResolvedType)
    ensures
        !names_own(fixed_shape(*ty)),
    decreases ty, 0int,
{
    match ty {
        ResolvedType::Pointer { pointee, .. } => {
            law_fixed_types_name_no_parameter(&**pointee);
        },
        ResolvedType::Slice { item, .. } => {
            law_fixed_types_name_no_parameter(&**item);
        },
        ResolvedType::Array(item, _) => {
            law_fixed_types_name_no_parameter(&**item);
        },
        ResolvedType::SizedArray(item, _) => {
            law_fixed_types_name_no_parameter(&**item);
            match fixed_shape(*ty) {
                TypeShape::SizedArray(_, length) => {
                    assert(!arg_names_own(*length));
                },
                _ => {},
            }
        },
        ResolvedType::Function(function) => {
            lemma_fixed_params(function.params@);
            law_fixed_types_name_no_parameter(&*function.return_type);
            assert(!some_names_own(fixed_params(function.params@)));
        },
        ResolvedType::Struct(cell) => {
            lemma_fixed_args(cell.generic_args@);
        },
        ResolvedType::Union(cell) => {
            lemma_fixed_args(cell.generic_args@);
        },
        ResolvedType::Enum { cell, .. } => {
            lemma_fixed_args(cell.generic_args@);
        },
        ResolvedType::Spec(cell) => {
            lemma_fixed_args(cell.generic_args@);
        },
        ResolvedType::SpecObject { shape, .. } => {
            let written = fixed_bounds(shape.members@);
            let kept = canonical_bounds(written);
            lemma_fixed_bounds(shape.members@);
            law_canonical_bounds_hold_what_is_written(written);
            assert forall|i: int| 0 <= i < kept.len() implies !bound_names_own(
                #[trigger] kept[i],
            ) by {
                assert(written.contains(kept[i]));
            }
        },
        ResolvedType::AnonymousEnum { shape, .. } => {
            lemma_fixed_contributions(shape.members@);
            lemma_canonical_types_name_no_other(fixed_contributions(shape.members@));
        },
        _ => {},
    }
}

proof fn lemma_fixed_args(args: Seq<ResolvedGenericArg>)
    ensures
        !args_name_own(fixed_args(args)),
    decreases args, 0int,
{
    if args.len() > 0 {
        lemma_fixed_args(args.drop_last());
        match &args[args.len() - 1] {
            ResolvedGenericArg::Type(ty) => {
                law_fixed_types_name_no_parameter(ty);
            },
            _ => {},
        }
        let before = fixed_args(args.drop_last());
        let all = fixed_args(args);
        assert(!arg_names_own(fixed_arg(args[args.len() - 1])));
        assert forall|i: int| 0 <= i < all.len() implies !arg_names_own(#[trigger] all[i]) by {
            if i < before.len() {
                assert(all[i] == before[i]);
                assert(!args_name_own(before));
            } else {
                assert(all[i] == fixed_arg(args[args.len() - 1]));
            }
        }
    }
}

proof fn lemma_fixed_params(params: Seq<ResolvedFunctionParam>)
    ensures
        !some_names_own(fixed_params(params)),
    decreases params, 0int,
{
    if params.len() > 0 {
        lemma_fixed_params(params.drop_last());
        law_fixed_types_name_no_parameter(&params[params.len() - 1].ty);
        let before = fixed_params(params.drop_last());
        let all = fixed_params(params);
        assert forall|i: int| 0 <= i < all.len() implies !names_own(#[trigger] all[i]) by {
            if i < before.len() {
                assert(all[i] == before[i]);
            }
        }
    }
}

proof fn lemma_fixed_shapes(types: Seq<ResolvedType>)
    ensures
        !some_names_own(fixed_shapes(types)),
    decreases types, 0int,
{
    if types.len() > 0 {
        lemma_fixed_shapes(types.drop_last());
        law_fixed_types_name_no_parameter(&types[types.len() - 1]);
        let before = fixed_shapes(types.drop_last());
        let all = fixed_shapes(types);
        assert forall|i: int| 0 <= i < all.len() implies !names_own(#[trigger] all[i]) by {
            if i < before.len() {
                assert(all[i] == before[i]);
            }
        }
    }
}

proof fn lemma_fixed_bounds(members: Seq<ResolvedSpecApplication>)
    ensures
        forall|i: int|
            0 <= i < fixed_bounds(members).len() ==> !bound_names_own(
                #[trigger] fixed_bounds(members)[i],
            ),
    decreases members, 0int,
{
    if members.len() > 0 {
        lemma_fixed_bounds(members.drop_last());
        lemma_fixed_args(members[members.len() - 1].spec_args@);
        let before = fixed_bounds(members.drop_last());
        let all = fixed_bounds(members);
        assert forall|i: int| 0 <= i < all.len() implies !bound_names_own(#[trigger] all[i]) by {
            if i < before.len() {
                assert(all[i] == before[i]);
            } else {
                assert(all[i] == fixed_bound(members[members.len() - 1]));
            }
        }
    }
}

proof fn lemma_fixed_contribution(ty: &ResolvedType)
    ensures
        !some_names_own(fixed_contribution(*ty)),
    decreases ty, 1int,
{
    match ty {
        ResolvedType::AnonymousEnum { shape, variant: None } => {
            lemma_fixed_contributions(shape.members@);
            lemma_canonical_types_name_no_other(fixed_contributions(shape.members@));
        },
        ResolvedType::AnonymousEnum { shape, variant: Some(_) } => {
            lemma_fixed_shapes(shape.members@);
        },
        _ => {
            law_fixed_types_name_no_parameter(ty);
        },
    }
}

proof fn lemma_fixed_contributions(types: Seq<ResolvedType>)
    ensures
        !some_names_own(fixed_contributions(types)),
    decreases types, 0int,
{
    if types.len() > 0 {
        lemma_fixed_contributions(types.drop_last());
        lemma_fixed_contribution(&types[types.len() - 1]);
        let before = fixed_contributions(types.drop_last());
        let last = fixed_contribution(types[types.len() - 1]);
        let all = fixed_contributions(types);
        assert(all == before + last);
        assert forall|i: int| 0 <= i < all.len() implies !names_own(#[trigger] all[i]) by {
            if i < before.len() {
                assert(all[i] == before[i]);
            } else {
                assert(all[i] == last[i - before.len()]);
            }
        }
    }
}

/// Whether a bound's arguments are all fixed by the declaration.
pub open spec fn fixed_by_declaration(bound: SpecPattern) -> bool {
    forall|i: int|
        0 <= i < bound.args@.len() ==> match #[trigger] bound.args@[i] {
            ArgumentPattern::Type(pattern) => *pattern is Fixed,
            ArgumentPattern::Value(_) => true,
            ArgumentPattern::Parameter(_) => false,
        }
}

proof fn lemma_written_args(args: Seq<ArgumentPattern>)
    ensures
        written_args(args).len() == args.len(),
        forall|i: int|
            0 <= i < args.len() ==> #[trigger] written_args(args)[i] == written_arg(args[i]),
    decreases args.len(),
{
    if args.len() > 0 {
        lemma_written_args(args.drop_last());
    }
}

/// A bound whose arguments are all fixed names no parameter.
pub proof fn law_fixed_bounds_name_no_parameter(bound: SpecPattern)
    requires
        fixed_by_declaration(bound),
    ensures
        !bound_names_own(written_bound(bound)),
{
    let args = written_bound(bound).args;
    lemma_written_args(bound.args@);
    assert forall|i: int| 0 <= i < args.len() implies !arg_names_own(#[trigger] args[i]) by {
        assert(args[i] == written_arg(bound.args@[i]));
        match &bound.args@[i] {
            ArgumentPattern::Type(pattern) => {
                let pattern: &TypePattern = &**pattern;
                match pattern {
                    TypePattern::Fixed(ty) => {
                        law_fixed_types_name_no_parameter(ty);
                    },
                    _ => {},
                }
            },
            _ => {},
        }
    }
}

/// A bound that names one of the declaration's own parameters, anywhere in it,
/// is never the same as one that is fixed to that parameter's argument.
pub proof fn law_own_parameter_is_not_its_argument(own: SpecPattern, other: SpecPattern)
    requires
        bound_names_own(written_bound(own)),
        fixed_by_declaration(other),
    ensures
        !same_bound_shape(written_bound(own), written_bound(other)),
        !same_bound_shape(written_bound(other), written_bound(own)),
{
    let a = written_bound(own);
    let b = written_bound(other);
    law_fixed_bounds_name_no_parameter(other);
    if same_bound_shape(b, a) {
        law_same_bound_symmetric(&b, &a);
    }
    if same_bound_shape(a, b) {
        lemma_same_bound_names_own(&a, &b);
    }
}

/// Declarations differ where one bounds a type parameter by something that
/// names the declaration's own parameters and the other bounds it only by what
/// it fixes, whatever either is instantiated at.
pub proof fn law_own_parameter_bounds_are_identity(
    a: OverloadTemplate,
    b: OverloadTemplate,
    index: int,
    k: int,
)
    requires
        describable(a),
        describable(b),
        0 <= index < a.generics@.len(),
        !a.generics@[index].comp(),
        0 <= k < a.bounds@.len(),
        a.bounds@[k].0 == index,
        bound_names_own(written_bound(a.bounds@[k].1)),
        forall|m: int|
            0 <= m < b.bounds@.len() && (#[trigger] b.bounds@[m]).0 == index
                ==> fixed_by_declaration(b.bounds@[m].1),
    ensures
        !same_descriptor(described(a), described(b)),
{
    if same_descriptor(described(a), described(b)) {
        let q = bounds_on(b.bounds@, index);
        let own = written_bound(a.bounds@[k].1);
        assert(holds_bound(q, own)) by {
            law_bounds_are_identity(a, b, index);
            law_bounds_are_the_written_ones(a.bounds@, index);
            lemma_held_on(bounds_on(a.bounds@, index), q, own);
        }
        let j = choose|j: int| 0 <= j < q.len() && same_bound_shape(#[trigger] q[j], own);
        assert(exists|m: int|
            0 <= m < b.bounds@.len() && (#[trigger] b.bounds@[m]).0 == index && written_bound(
                b.bounds@[m].1,
            ) == q[j]) by {
            law_bounds_are_the_written_ones(b.bounds@, index);
        }
        let m = choose|m: int|
            0 <= m < b.bounds@.len() && (#[trigger] b.bounds@[m]).0 == index && written_bound(
                b.bounds@[m].1,
            ) == q[j];
        law_own_parameter_is_not_its_argument(a.bounds@[k].1, b.bounds@[m].1);
    }
}

proof fn lemma_held_on(p: Seq<BoundShape>, q: Seq<BoundShape>, bound: BoundShape)
    requires
        forall|i: int| 0 <= i < p.len() ==> holds_bound(q, #[trigger] p[i]),
        holds_bound(p, bound),
    ensures
        holds_bound(q, bound),
{
    let i = choose|i: int| 0 <= i < p.len() && same_bound_shape(#[trigger] p[i], bound);
    assert(holds_bound(q, p[i]));
    let j = choose|j: int| 0 <= j < q.len() && same_bound_shape(#[trigger] q[j], p[i]);
    law_same_bound_transitive(&q[j], &p[i], &bound);
}

} // verus!
