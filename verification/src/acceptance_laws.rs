//! What acceptance promises: a plain copy, and an order on types.

use crate::annotations::Layout;
use crate::hir::HirId;
use crate::layout::{align_of, leaves_spec, member_parts, types_align};
use crate::resolved_type::{
    ResolvedAnonymousEnum, ResolvedEnumType, ResolvedEnumVariant, ResolvedField,
    ResolvedFunctionType, ResolvedType,
};
use crate::type_eq::{
    accepted, law_same_type_symmetric, law_same_type_transitive, same_function, same_params, same_type, same_types,
};
use std::rc::Rc;
use vstd::prelude::*;

verus! {

/// What a struct declaration says of its values' layout.
pub struct StructBody {
    pub fields: Seq<ResolvedField>,
    pub layout: Layout,
}

/// What an enum declaration says of its values' layout.
pub struct EnumBody {
    pub tag_type: ResolvedType,
    pub header: Seq<ResolvedField>,
    pub dynamic_fields: Seq<ResolvedField>,
    pub variants: Seq<ResolvedEnumVariant>,
    pub layout: Layout,
}

/// The declarations of a compilation, each under its own number.
pub struct Bodies {
    pub structs: Map<HirId, StructBody>,
    pub unions: Map<HirId, Seq<ResolvedField>>,
    pub enums: Map<HirId, EnumBody>,
}

/// Whether every declaration that is stored inline in a value of `ty` is the
/// one that `all` holds under its number.
pub open spec fn declared_by(all: Bodies, ty: ResolvedType) -> bool
    decreases ty,
{
    match ty {
        ResolvedType::Struct(cell) => all.structs[cell.id] == (StructBody {
            fields: cell.fields@,
            layout: cell.layout,
        }),
        ResolvedType::Union(cell) => all.unions[cell.id] == cell.fields@,
        ResolvedType::Enum { cell, .. } => all.enums[cell.id] == (EnumBody {
            tag_type: cell.tag_type,
            header: cell.header@,
            dynamic_fields: cell.dynamic_fields@,
            variants: cell.variants@,
            layout: cell.layout,
        }),
        ResolvedType::AnonymousEnum { shape, .. } => forall|i: int|
            0 <= i < shape.members@.len() ==> declared_by(all, #[trigger] shape.members@[i]),
        ResolvedType::SizedArray(item, _) => declared_by(all, *item),
        _ => true,
    }
}

/// One type has one layout.
pub proof fn law_same_types_are_laid_out_alike(
    all: Bodies,
    a: &ResolvedType,
    b: &ResolvedType,
    pointer_bytes: u32,
)
    requires
        declared_by(all, *a),
        declared_by(all, *b),
        same_type(*a, *b),
    ensures
        leaves_spec(*a, pointer_bytes) == leaves_spec(*b, pointer_bytes),
        align_of(*a) == align_of(*b),
    decreases a, 0int,
{
    match (a, b) {
        (ResolvedType::SizedArray(p, _), ResolvedType::SizedArray(q, _)) => {
            law_same_types_are_laid_out_alike(all, &**p, &**q, pointer_bytes);
        },
        (
            ResolvedType::AnonymousEnum { shape: p, .. },
            ResolvedType::AnonymousEnum { shape: q, .. },
        ) => {
            assert(same_types(p.members@, q.members@));
            lemma_members_alike(all, p.members@, q.members@, pointer_bytes);
        },
        _ => {},
    }
}

proof fn lemma_members_alike(
    all: Bodies,
    a: Seq<ResolvedType>,
    b: Seq<ResolvedType>,
    pointer_bytes: u32,
)
    requires
        forall|i: int| 0 <= i < a.len() ==> declared_by(all, #[trigger] a[i]),
        forall|i: int| 0 <= i < b.len() ==> declared_by(all, #[trigger] b[i]),
        same_types(a, b),
    ensures
        member_parts(a, pointer_bytes) == member_parts(b, pointer_bytes),
        types_align(a) == types_align(b),
    decreases a, 0int,
{
    if a.len() > 0 {
        let p = a.drop_last();
        let q = b.drop_last();
        assert forall|i: int| 0 <= i < p.len() implies declared_by(all, #[trigger] p[i]) by {
            assert(declared_by(all, a[i]));
        }
        assert forall|i: int| 0 <= i < q.len() implies declared_by(all, #[trigger] q[i]) by {
            assert(declared_by(all, b[i]));
        }
        assert(same_types(p, q)) by {
            assert forall|i: int| 0 <= i < p.len() implies same_type(#[trigger] p[i], q[i]) by {
                assert(same_type(a[i], b[i]));
            }
        }
        lemma_members_alike(all, p, q, pointer_bytes);
        assert(declared_by(all, a[a.len() - 1]) && declared_by(all, b[b.len() - 1]));
        assert(same_type(a[a.len() - 1], b[b.len() - 1]));
        law_same_types_are_laid_out_alike(all, &a[a.len() - 1], &b[b.len() - 1], pointer_bytes);
    }
}

/// Acceptance is a plain copy: what a type accepts has the leaves of the type,
/// and its alignment.
pub proof fn law_acceptance_is_a_plain_copy(
    all: Bodies,
    expected: &ResolvedType,
    value: &ResolvedType,
    pointer_bytes: u32,
)
    requires
        declared_by(all, *expected),
        declared_by(all, *value),
        accepted(*expected, *value),
    ensures
        leaves_spec(*expected, pointer_bytes) == leaves_spec(*value, pointer_bytes),
        align_of(*expected) == align_of(*value),
{
    if same_type(*expected, *value) {
        law_same_types_are_laid_out_alike(all, expected, value, pointer_bytes);
    } else {
        match (expected, value) {
            (
                ResolvedType::AnonymousEnum { shape: p, .. },
                ResolvedType::AnonymousEnum { shape: q, .. },
            ) => {
                lemma_members_alike(all, p.members@, q.members@, pointer_bytes);
            },
            _ => {},
        }
    }
}

proof fn lemma_lists_transitive(
    a: Seq<ResolvedType>,
    b: Seq<ResolvedType>,
    c: Seq<ResolvedType>,
)
    requires
        same_types(a, b),
        same_types(b, c),
    ensures
        same_types(a, c),
{
    assert forall|i: int| 0 <= i < a.len() implies same_type(#[trigger] a[i], c[i]) by {
        assert(same_type(a[i], b[i]));
        assert(same_type(b[i], c[i]));
        law_same_type_transitive(&a[i], &b[i], &c[i]);
    }
}

/// What is accepted by what is accepted is accepted.
pub proof fn law_acceptance_is_transitive(a: &ResolvedType, b: &ResolvedType, c: &ResolvedType)
    requires
        accepted(*a, *b),
        accepted(*b, *c),
    ensures
        accepted(*a, *c),
    decreases a,
{
    if same_type(*a, *b) && same_type(*b, *c) {
        law_same_type_transitive(a, b, c);
    } else {
        match (a, b, c) {
            (
                ResolvedType::AnonymousEnum { shape: x, .. },
                ResolvedType::AnonymousEnum { shape: y, .. },
                ResolvedType::AnonymousEnum { shape: z, .. },
            ) => {
                lemma_lists_transitive(x.members@, y.members@, z.members@);
            },
            (
                ResolvedType::Pointer { pointee: x, .. },
                ResolvedType::Pointer { pointee: y, .. },
                ResolvedType::Pointer { pointee: z, .. },
            ) => {
                law_acceptance_is_transitive(&**x, &**y, &**z);
            },
            (
                ResolvedType::Slice { item: x, .. },
                ResolvedType::Slice { item: y, .. },
                ResolvedType::Slice { item: z, .. },
            ) => {
                law_acceptance_is_transitive(&**x, &**y, &**z);
            },
            (ResolvedType::Array(x, _), ResolvedType::Array(y, _), ResolvedType::Array(z, _)) => {
                law_acceptance_is_transitive(&**x, &**y, &**z);
            },
            _ => {},
        }
    }
}

/// Types that accept each other are one type: acceptance orders types.
pub proof fn law_mutual_acceptance_is_equality(a: &ResolvedType, b: &ResolvedType)
    requires
        accepted(*a, *b),
        accepted(*b, *a),
    ensures
        same_type(*a, *b),
    decreases a,
{
    if same_type(*b, *a) {
        law_same_type_symmetric(b, a);
    } else if !same_type(*a, *b) {
        match (a, b) {
            (
                ResolvedType::Pointer { pointee: x, .. },
                ResolvedType::Pointer { pointee: y, .. },
            ) => {
                law_mutual_acceptance_is_equality(&**x, &**y);
            },
            (ResolvedType::Slice { item: x, .. }, ResolvedType::Slice { item: y, .. }) => {
                law_mutual_acceptance_is_equality(&**x, &**y);
            },
            (ResolvedType::Array(x, _), ResolvedType::Array(y, _)) => {
                law_mutual_acceptance_is_equality(&**x, &**y);
            },
            _ => {},
        }
    }
}

/// A read-only pointer, slice or array of `t` accepts the read-only and the
/// writable one of whatever `t` accepts, so of `t` itself; and read-only text
/// accepts writable text.
pub proof fn law_read_only_accepts_writable(t: &ResolvedType, u: &ResolvedType, mutable: bool)
    requires
        accepted(*t, *u),
    ensures
        accepted(
            ResolvedType::Pointer { pointee: Rc::new(*t), mutable: false },
            ResolvedType::Pointer { pointee: Rc::new(*u), mutable },
        ),
        accepted(
            ResolvedType::Slice { item: Rc::new(*t), mutable: false },
            ResolvedType::Slice { item: Rc::new(*u), mutable },
        ),
        accepted(
            ResolvedType::Array(Rc::new(*t), false),
            ResolvedType::Array(Rc::new(*u), mutable),
        ),
        accepted(ResolvedType::Str { mutable: false }, ResolvedType::Str { mutable }),
{
}

/// A writable pointer, slice, array or text accepts nothing but its own type:
/// no read-only one, and none of another target.
pub proof fn law_writable_accepts_only_itself(t: &ResolvedType, value: &ResolvedType)
    ensures
        accepted(ResolvedType::Pointer { pointee: Rc::new(*t), mutable: true }, *value) <==> (
        *value matches ResolvedType::Pointer { pointee, mutable: true } && same_type(*t, *pointee)),
        accepted(ResolvedType::Slice { item: Rc::new(*t), mutable: true }, *value) <==> (
        *value matches ResolvedType::Slice { item, mutable: true } && same_type(*t, *item)),
        accepted(ResolvedType::Array(Rc::new(*t), true), *value) <==> (
        *value matches ResolvedType::Array(item, true) && same_type(*t, *item)),
        accepted(ResolvedType::Str { mutable: true }, *value) <==> *value == (ResolvedType::Str {
            mutable: true,
        }),
{
}

/// Nothing but a pointer is accepted by a pointer, a slice by a slice, an
/// array by an array, or text by text, and that only where the targets are
/// accepted.
pub proof fn law_acceptance_keeps_the_constructor(t: &ResolvedType, value: &ResolvedType)
    ensures
        accepted(ResolvedType::Pointer { pointee: Rc::new(*t), mutable: false }, *value) ==> (
        *value matches ResolvedType::Pointer { pointee, .. } && accepted(*t, *pointee)),
        accepted(ResolvedType::Slice { item: Rc::new(*t), mutable: false }, *value) ==> (
        *value matches ResolvedType::Slice { item, .. } && accepted(*t, *item)),
        accepted(ResolvedType::Array(Rc::new(*t), false), *value) ==> (
        *value matches ResolvedType::Array(item, _) && accepted(*t, *item)),
        accepted(ResolvedType::Str { mutable: false }, *value) ==> *value is Str,
        forall|size: u32|
            #[trigger] accepted(ResolvedType::SizedArray(Rc::new(*t), size), *value) ==> (
            *value matches ResolvedType::SizedArray(item, found) && found == size && same_type(
                *t,
                *item,
            )),
{
}

/// An enum accepts each of its refinements, and a refined one accepts only the
/// same refinement of itself.
pub proof fn law_enums_accept_their_refinements(
    cell: Rc<ResolvedEnumType>,
    other: Rc<ResolvedEnumType>,
    known: Option<usize>,
    found: Option<usize>,
)
    ensures
        accepted(
            ResolvedType::Enum { cell, variant: known },
            ResolvedType::Enum { cell: other, variant: found },
        ) <==> cell.id == other.id && (known is None || found == known),
{
}

/// An anonymous enum accepts each of its refinements, a refined one accepts
/// only the same refinement of itself, and neither accepts another enum.
pub proof fn law_anonymous_enums_accept_their_refinements(
    shape: Rc<ResolvedAnonymousEnum>,
    other: Rc<ResolvedAnonymousEnum>,
    known: Option<usize>,
    found: Option<usize>,
)
    ensures
        accepted(
            ResolvedType::AnonymousEnum { shape, variant: known },
            ResolvedType::AnonymousEnum { shape: other, variant: found },
        ) <==> same_types(shape.members@, other.members@) && (known is None || found == known),
{
}

/// Acceptance goes nowhere else: where the accepting type is no enum and no
/// read-only pointer, slice, array or text, it accepts its own type only.
pub proof fn law_acceptance_is_the_least(expected: &ResolvedType, value: &ResolvedType)
    requires
        !(*expected is Enum || *expected is AnonymousEnum || *expected is Pointer
            || *expected is Slice || *expected is Array || *expected is Str),
    ensures
        accepted(*expected, *value) <==> same_type(*expected, *value),
{
}

/// Types are the same only where they are made the same way of the same: in
/// particular with the same mutability, length and refinement.
pub proof fn law_sameness_keeps_what_a_type_is_made_of(
    t: &ResolvedType,
    u: &ResolvedType,
    m: bool,
    n: bool,
    p: u32,
    q: u32,
)
    ensures
        same_type(
            ResolvedType::Pointer { pointee: Rc::new(*t), mutable: m },
            ResolvedType::Pointer { pointee: Rc::new(*u), mutable: n },
        ) <==> m == n && same_type(*t, *u),
        same_type(
            ResolvedType::Slice { item: Rc::new(*t), mutable: m },
            ResolvedType::Slice { item: Rc::new(*u), mutable: n },
        ) <==> m == n && same_type(*t, *u),
        same_type(
            ResolvedType::Array(Rc::new(*t), m),
            ResolvedType::Array(Rc::new(*u), n),
        ) <==> m == n && same_type(*t, *u),
        same_type(
            ResolvedType::SizedArray(Rc::new(*t), p),
            ResolvedType::SizedArray(Rc::new(*u), q),
        ) <==> p == q && same_type(*t, *u),
        same_type(ResolvedType::Str { mutable: m }, ResolvedType::Str { mutable: n }) <==> m == n,
{
}

/// Function types are the same only where the same types go in and come out
/// in the same way.
pub proof fn law_sameness_of_functions(f: Rc<ResolvedFunctionType>, g: Rc<ResolvedFunctionType>)
    ensures
        same_type(ResolvedType::Function(f), ResolvedType::Function(g)) <==> {
            &&& f.params@.len() == g.params@.len()
            &&& forall|i: int|
                0 <= i < f.params@.len() ==> same_type(
                    #[trigger] f.params@[i].ty,
                    g.params@[i].ty,
                )
            &&& same_type(*f.return_type, *g.return_type)
            &&& f.is_variadic == g.is_variadic
            &&& f.self_mode == g.self_mode
            &&& f.calling_convention == g.calling_convention
        },
{
    let x: &ResolvedFunctionType = &*f;
    let y: &ResolvedFunctionType = &*g;
    assert(same_type(ResolvedType::Function(f), ResolvedType::Function(g)) == same_function(
        *x,
        *y,
    ));
    assert(same_params(x.params@, y.params@) == (x.params@.len() == y.params@.len() && forall|
        i: int,
    |
        0 <= i < x.params@.len() ==> same_type(#[trigger] x.params@[i].ty, y.params@[i].ty)));
}

} // verus!
