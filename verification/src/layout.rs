//! Memory layout: the scalar leaves a value is made of, and where they lie.
//!
//! A value is a sequence of leaves without gaps: interior gaps and trailing
//! padding are filler leaves of one byte each, so that byte offsets and leaf
//! positions always agree.

use crate::annotations::Layout;
use crate::checked::NumberValue;
use crate::resolved_type::{
    ConstValue, ResolvedAnonymousEnum, ResolvedEnumType, ResolvedEnumVariant, ResolvedField,
    ResolvedStructType, ResolvedType, ResolvedUnionType,
};
use crate::text::share;
use std::rc::Rc;
use vstd::prelude::*;

verus! {

/// A scalar a value is made of.
#[derive(Debug, Clone, Copy, PartialEq, Eq, Structural)]
pub enum Leaf {
    I8,
    I16,
    I32,
    I64,
    F32,
    F64,
    Ptr,
    FnPtr,
    Size,
}

impl Leaf {
    /// Bytes of this leaf.
    pub open spec fn size(self, pointer_bytes: u32) -> nat {
        match self {
            Leaf::I8 => 1,
            Leaf::I16 => 2,
            Leaf::I32 => 4,
            Leaf::I64 => 8,
            Leaf::F32 => 4,
            Leaf::F64 => 8,
            Leaf::Ptr | Leaf::FnPtr | Leaf::Size => pointer_bytes as nat,
        }
    }

    pub fn bytes(self, pointer_bytes: u32) -> (bytes: u32)
        ensures
            bytes == self.size(pointer_bytes),
    {
        match self {
            Leaf::I8 => 1,
            Leaf::I16 => 2,
            Leaf::I32 => 4,
            Leaf::I64 => 8,
            Leaf::F32 => 4,
            Leaf::F64 => 8,
            Leaf::Ptr | Leaf::FnPtr | Leaf::Size => pointer_bytes,
        }
    }
}

/// Bytes of a list of leaves.
pub open spec fn leaf_bytes(leaves: Seq<Leaf>, pointer_bytes: u32) -> nat
    decreases leaves.len(),
{
    if leaves.len() == 0 {
        0
    } else {
        leaf_bytes(leaves.drop_last(), pointer_bytes) + leaves.last().size(pointer_bytes)
    }
}

/// The least multiple of `align` that is no less than `offset`; alignments of
/// one and less ask for nothing.
pub open spec fn rounded(offset: nat, align: nat) -> nat {
    if align <= 1 || offset % align == 0 {
        offset
    } else {
        (offset + align - offset % align) as nat
    }
}

/// Where a field goes that is to start at `offset` or later: at its alignment,
/// and in the next packing chunk if it would straddle the end of this one.
pub open spec fn placed(offset: nat, align: nat, size: nat, pack: nat) -> nat {
    let aligned = rounded(offset, align);
    let in_chunk = aligned % pack;
    if in_chunk == 0 || in_chunk + size <= pack {
        aligned
    } else {
        rounded((aligned - in_chunk + pack) as nat, align)
    }
}

/// Filler of `count` bytes.
pub open spec fn padding(count: nat) -> Seq<Leaf> {
    Seq::new(count, |i: int| Leaf::I8)
}

/// A field as layout sees it.
pub struct Part {
    pub leaves: Seq<Leaf>,
    pub align: nat,
}

impl Part {
    /// Bytes of this field.
    pub open spec fn size(self, pointer_bytes: u32) -> nat {
        leaf_bytes(self.leaves, pointer_bytes)
    }
}

/// Where the bytes of fields laid out in order end.
pub open spec fn plan_end(parts: Seq<Part>, pack: nat, pointer_bytes: u32) -> nat
    decreases parts.len(),
{
    if parts.len() == 0 {
        0
    } else {
        placed(
            plan_end(parts.drop_last(), pack, pointer_bytes),
            parts.last().align,
            parts.last().size(pointer_bytes),
            pack,
        ) + parts.last().size(pointer_bytes)
    }
}

/// Where the last of some fields starts.
pub open spec fn plan_next(parts: Seq<Part>, pack: nat, pointer_bytes: u32) -> nat {
    placed(
        plan_end(parts.drop_last(), pack, pointer_bytes),
        parts.last().align,
        parts.last().size(pointer_bytes),
        pack,
    )
}

/// The leaves of fields laid out in order, gaps filled.
pub open spec fn plan_leaves(parts: Seq<Part>, pack: nat, pointer_bytes: u32) -> Seq<Leaf>
    decreases parts.len(),
{
    if parts.len() == 0 {
        Seq::empty()
    } else {
        let before = plan_end(parts.drop_last(), pack, pointer_bytes);
        let start = plan_next(parts, pack, pointer_bytes);
        plan_leaves(parts.drop_last(), pack, pointer_bytes) + padding((start - before) as nat)
            + parts.last().leaves
    }
}

/// Byte offset of field `index`.
pub open spec fn plan_offset(parts: Seq<Part>, index: int, pack: nat, pointer_bytes: u32) -> nat {
    plan_next(parts.take(index + 1), pack, pointer_bytes)
}

/// Position of the first leaf of field `index`.
pub open spec fn plan_start(parts: Seq<Part>, index: int, pack: nat, pointer_bytes: u32) -> nat {
    (plan_leaves(parts.take(index + 1), pack, pointer_bytes).len() - parts[index].leaves.len()) as nat
}

/// The greater of two numbers.
pub open spec fn larger(a: nat, b: nat) -> nat {
    if a < b {
        b
    } else {
        a
    }
}

/// The strictest alignment among some fields, at least one.
pub open spec fn parts_align(parts: Seq<Part>) -> nat
    decreases parts.len(),
{
    if parts.len() == 0 {
        1
    } else {
        larger(parts_align(parts.drop_last()), parts.last().align)
    }
}

/// The size of the largest of some fields.
pub open spec fn parts_max(parts: Seq<Part>, pointer_bytes: u32) -> nat
    decreases parts.len(),
{
    if parts.len() == 0 {
        0
    } else {
        larger(parts_max(parts.drop_last(), pointer_bytes), parts.last().size(pointer_bytes))
    }
}

/// The strictest alignment among the fields of some bodies, at least one.
pub open spec fn bodies_align(bodies: Seq<Seq<Part>>) -> nat
    decreases bodies.len(),
{
    if bodies.len() == 0 {
        1
    } else {
        larger(bodies_align(bodies.drop_last()), parts_align(bodies.last()))
    }
}

/// The size of the largest of some bodies.
pub open spec fn bodies_max(bodies: Seq<Seq<Part>>, pack: nat, pointer_bytes: u32) -> nat
    decreases bodies.len(),
{
    if bodies.len() == 0 {
        0
    } else {
        larger(
            bodies_max(bodies.drop_last(), pack, pointer_bytes),
            plan_end(bodies.last(), pack, pointer_bytes),
        )
    }
}

/// Integer leaves that fill `bytes` bytes, widest first.
pub open spec fn chunks(bytes: nat) -> Seq<Leaf>
    decreases bytes,
{
    if bytes >= 8 {
        seq![Leaf::I64] + chunks((bytes - 8) as nat)
    } else if bytes >= 4 {
        seq![Leaf::I32] + chunks((bytes - 4) as nat)
    } else if bytes >= 2 {
        seq![Leaf::I16] + chunks((bytes - 2) as nat)
    } else if bytes >= 1 {
        seq![Leaf::I8]
    } else {
        Seq::empty()
    }
}

/// Where the payload of an enum starts: behind the prefix, at the strictest
/// alignment any body field asks for, since every variant shares that start.
pub open spec fn payload_start(
    prefix: Seq<Part>,
    bodies: Seq<Seq<Part>>,
    pack: nat,
    pointer_bytes: u32,
) -> nat {
    placed(
        plan_end(prefix, pack, pointer_bytes),
        bodies_align(bodies),
        bodies_max(bodies, pack, pointer_bytes),
        pack,
    )
}

/// The alignment of an enum: the declared one, or a stricter one that any of
/// its fields asks for.
pub open spec fn enum_align(prefix: Seq<Part>, bodies: Seq<Seq<Part>>, declared: nat) -> nat {
    larger(declared, larger(parts_align(prefix), bodies_align(bodies)))
}

/// The leaves of an enum: prefix, filler up to the payload, the payload as
/// opaque integer chunks, and filler up to the alignment.
pub open spec fn enum_leaves(
    prefix: Seq<Part>,
    bodies: Seq<Seq<Part>>,
    pack: nat,
    declared: nat,
    pointer_bytes: u32,
) -> Seq<Leaf> {
    let prefix_end = plan_end(prefix, pack, pointer_bytes);
    let start = payload_start(prefix, bodies, pack, pointer_bytes);
    let size = bodies_max(bodies, pack, pointer_bytes);
    let end = start + size;
    plan_leaves(prefix, pack, pointer_bytes) + padding((start - prefix_end) as nat) + chunks(size)
        + padding((rounded(end, enum_align(prefix, bodies, declared)) - end) as nat)
}

/// The alignment a type asks of its address. A container inherits the
/// requirement of anything stored inline in it; what a pointer points to is
/// not stored inline.
pub open spec fn align_of(ty: ResolvedType) -> nat
    decreases ty,
{
    match ty {
        ResolvedType::Struct(cell) => larger(cell.layout.align as nat, fields_align(cell.fields@)),
        ResolvedType::Union(cell) => fields_align(cell.fields@),
        ResolvedType::Enum { cell, .. } => larger(
            cell.layout.align as nat,
            larger(
                larger(
                    larger(larger(1, align_of(cell.tag_type)), fields_align(cell.header@)),
                    fields_align(cell.dynamic_fields@),
                ),
                variants_align(cell.variants@),
            ),
        ),
        ResolvedType::AnonymousEnum { shape, .. } => types_align(shape.members@),
        ResolvedType::SizedArray(item, _) => align_of(*item),
        _ => 1,
    }
}

/// The strictest alignment among some fields, at least one.
pub open spec fn fields_align(fields: Seq<ResolvedField>) -> nat
    decreases fields,
{
    if fields.len() == 0 {
        1
    } else {
        larger(fields_align(fields.drop_last()), align_of(fields.last().ty))
    }
}

/// The strictest alignment among some types, at least one.
pub open spec fn types_align(types: Seq<ResolvedType>) -> nat
    decreases types,
{
    if types.len() == 0 {
        1
    } else {
        larger(types_align(types.drop_last()), align_of(types.last()))
    }
}

/// The strictest alignment among the fields of some variants, at least one.
pub open spec fn variants_align(variants: Seq<ResolvedEnumVariant>) -> nat
    decreases variants,
{
    if variants.len() == 0 {
        1
    } else {
        larger(variants_align(variants.drop_last()), fields_align(variants.last().fields@))
    }
}

/// `count` copies of a list of leaves, one after the other.
pub open spec fn repeated(leaves: Seq<Leaf>, count: nat) -> Seq<Leaf>
    decreases count,
{
    if count == 0 {
        Seq::empty()
    } else {
        repeated(leaves, (count - 1) as nat) + leaves
    }
}

/// The leaves of a value of a type, in order.
pub open spec fn leaves_spec(ty: ResolvedType, pointer_bytes: u32) -> Seq<Leaf>
    decreases ty,
{
    match ty {
        ResolvedType::Void | ResolvedType::Never => Seq::empty(),
        ResolvedType::Bool => seq![Leaf::I8],
        ResolvedType::Char => seq![Leaf::I32],
        ResolvedType::I8 | ResolvedType::U8 => seq![Leaf::I8],
        ResolvedType::I16 | ResolvedType::U16 => seq![Leaf::I16],
        ResolvedType::I32 | ResolvedType::U32 => seq![Leaf::I32],
        ResolvedType::I64 | ResolvedType::U64 => seq![Leaf::I64],
        ResolvedType::USize | ResolvedType::ISize => seq![Leaf::Size],
        ResolvedType::F32 => seq![Leaf::F32],
        ResolvedType::F64 => seq![Leaf::F64],
        ResolvedType::Struct(cell) => {
            let parts = field_parts(cell.fields@, pointer_bytes);
            let pack = cell.layout.pack as nat;
            let end = plan_end(parts, pack, pointer_bytes);
            let align = larger(cell.layout.align as nat, fields_align(cell.fields@));
            plan_leaves(parts, pack, pointer_bytes) + padding((rounded(end, align) - end) as nat)
        },
        ResolvedType::Union(cell) => chunks(
            rounded(
                parts_max(field_parts(cell.fields@, pointer_bytes), pointer_bytes),
                fields_align(cell.fields@),
            ),
        ),
        ResolvedType::Enum { cell, .. } => enum_leaves(
            seq![
                Part {
                    leaves: leaves_spec(cell.tag_type, pointer_bytes),
                    align: align_of(cell.tag_type),
                },
            ] + field_parts(cell.header@, pointer_bytes) + field_parts(
                cell.dynamic_fields@,
                pointer_bytes,
            ),
            variant_parts(cell.variants@, pointer_bytes),
            cell.layout.pack as nat,
            cell.layout.align as nat,
            pointer_bytes,
        ),
        ResolvedType::AnonymousEnum { shape, .. } => enum_leaves(
            seq![anonymous_tag_part()],
            member_parts(shape.members@, pointer_bytes),
            1,
            1,
            pointer_bytes,
        ),
        ResolvedType::SizedArray(item, size) => repeated(
            leaves_spec(*item, pointer_bytes),
            size as nat,
        ),
        ResolvedType::Slice { .. } | ResolvedType::Str { .. } => seq![Leaf::Ptr, Leaf::I32],
        ResolvedType::Pointer { .. } | ResolvedType::Array(_, _) => seq![Leaf::Ptr],
        ResolvedType::Function(_) => seq![Leaf::FnPtr],
        ResolvedType::SpecObject { .. } => seq![Leaf::Ptr, Leaf::Ptr],
        ResolvedType::Spec(_) => Seq::empty(),
    }
}

/// The tag of an anonymous enum, a `u32`.
pub open spec fn anonymous_tag_part() -> Part {
    Part { leaves: seq![Leaf::I32], align: 1 }
}

/// Some fields as layout sees them.
pub open spec fn field_parts(fields: Seq<ResolvedField>, pointer_bytes: u32) -> Seq<Part>
    decreases fields,
{
    if fields.len() == 0 {
        Seq::empty()
    } else {
        field_parts(fields.drop_last(), pointer_bytes).push(
            Part {
                leaves: leaves_spec(fields.last().ty, pointer_bytes),
                align: align_of(fields.last().ty),
            },
        )
    }
}

/// Some types as the fields that hold them.
pub open spec fn type_parts(types: Seq<ResolvedType>, pointer_bytes: u32) -> Seq<Part>
    decreases types,
{
    if types.len() == 0 {
        Seq::empty()
    } else {
        type_parts(types.drop_last(), pointer_bytes).push(
            Part {
                leaves: leaves_spec(types.last(), pointer_bytes),
                align: align_of(types.last()),
            },
        )
    }
}

/// The bodies of some variants.
pub open spec fn variant_parts(variants: Seq<ResolvedEnumVariant>, pointer_bytes: u32) -> Seq<
    Seq<Part>,
>
    decreases variants,
{
    if variants.len() == 0 {
        Seq::empty()
    } else {
        variant_parts(variants.drop_last(), pointer_bytes).push(
            field_parts(variants.last().fields@, pointer_bytes),
        )
    }
}

/// The bodies of an anonymous enum: one field per member.
pub open spec fn member_parts(members: Seq<ResolvedType>, pointer_bytes: u32) -> Seq<Seq<Part>>
    decreases members,
{
    if members.len() == 0 {
        Seq::empty()
    } else {
        member_parts(members.drop_last(), pointer_bytes).push(
            seq![
                Part {
                    leaves: leaves_spec(members.last(), pointer_bytes),
                    align: align_of(members.last()),
                },
            ],
        )
    }
}

/// Bytes of a value of a type.
pub open spec fn size_of(ty: ResolvedType, pointer_bytes: u32) -> nat {
    leaf_bytes(leaves_spec(ty, pointer_bytes), pointer_bytes)
}

/// Whether a type has values, every packing chunk in it holds at least one
/// byte, and neither it nor anything stored inline in it outgrows 32-bit
/// sizes.
pub open spec fn measurable(ty: ResolvedType, pointer_bytes: u32) -> bool
    decreases ty, 1int,
{
    &&& parts_measurable(ty, pointer_bytes)
    &&& size_of(ty, pointer_bytes) <= u32::MAX
}

/// [`measurable`] for what is stored inline in a type.
pub open spec fn parts_measurable(ty: ResolvedType, pointer_bytes: u32) -> bool
    decreases ty, 0int,
{
    match ty {
        ResolvedType::Spec(_) => false,
        ResolvedType::Struct(cell) => cell.layout.pack >= 1 && fields_measurable(
            cell.fields@,
            pointer_bytes,
        ),
        ResolvedType::Union(cell) => fields_measurable(cell.fields@, pointer_bytes),
        ResolvedType::Enum { cell, .. } => {
            &&& cell.layout.pack >= 1
            &&& measurable(cell.tag_type, pointer_bytes)
            &&& fields_measurable(cell.header@, pointer_bytes)
            &&& fields_measurable(cell.dynamic_fields@, pointer_bytes)
            &&& variants_measurable(cell.variants@, pointer_bytes)
        },
        ResolvedType::AnonymousEnum { shape, .. } => types_measurable(
            shape.members@,
            pointer_bytes,
        ),
        ResolvedType::SizedArray(item, _) => measurable(*item, pointer_bytes),
        _ => true,
    }
}

/// [`measurable`] for fields.
pub open spec fn fields_measurable(fields: Seq<ResolvedField>, pointer_bytes: u32) -> bool
    decreases fields, 0int,
{
    forall|i: int| 0 <= i < fields.len() ==> measurable(#[trigger] fields[i].ty, pointer_bytes)
}

/// [`measurable`] for types.
pub open spec fn types_measurable(types: Seq<ResolvedType>, pointer_bytes: u32) -> bool
    decreases types, 0int,
{
    forall|i: int| 0 <= i < types.len() ==> measurable(#[trigger] types[i], pointer_bytes)
}

/// [`measurable`] for variants.
pub open spec fn variants_measurable(
    variants: Seq<ResolvedEnumVariant>,
    pointer_bytes: u32,
) -> bool
    decreases variants, 0int,
{
    forall|i: int|
        0 <= i < variants.len() ==> fields_measurable(
            #[trigger] variants[i].fields@,
            pointer_bytes,
        )
}

pub(crate) proof fn lemma_rounded(offset: nat, align: nat)
    ensures
        rounded(offset, align) >= offset,
        align >= 1 ==> rounded(offset, align) % align == 0,
        align >= 1 ==> rounded(offset, align) < offset + align,
{
    if align > 1 && offset % align != 0 {
        let r = (offset + align - offset % align) as nat;
        vstd::arithmetic::div_mod::lemma_mod_bound(offset as int, align as int);
        vstd::arithmetic::div_mod::lemma_fundamental_div_mod(offset as int, align as int);
        let q = offset as int / align as int;
        assert(r == align * (q + 1)) by (nonlinear_arith)
            requires
                offset == align * q + offset % align,
                r == offset + align - offset % align,
        ;
        vstd::arithmetic::div_mod::lemma_mod_multiples_basic(q + 1, align as int);
        assert(align * (q + 1) == (q + 1) * align) by (nonlinear_arith);
    } else if align == 1 {
        assert(offset % 1 == 0);
    }
}

pub(crate) proof fn lemma_placed(offset: nat, align: nat, size: nat, pack: nat)
    requires
        pack >= 1,
    ensures
        placed(offset, align, size, pack) >= offset,
        placed(offset, align, size, pack) >= rounded(offset, align),
        align >= 1 ==> placed(offset, align, size, pack) % align == 0,
{
    let aligned = rounded(offset, align);
    let in_chunk = aligned % pack;
    lemma_rounded(offset, align);
    vstd::arithmetic::div_mod::lemma_mod_bound(aligned as int, pack as int);
    vstd::arithmetic::div_mod::lemma_mod_decreases(aligned, pack);
    lemma_rounded((aligned - in_chunk + pack) as nat, align);
}

pub(crate) proof fn lemma_leaf_bytes_add(a: Seq<Leaf>, b: Seq<Leaf>, pointer_bytes: u32)
    ensures
        leaf_bytes(a + b, pointer_bytes) == leaf_bytes(a, pointer_bytes) + leaf_bytes(
            b,
            pointer_bytes,
        ),
    decreases b.len(),
{
    if b.len() == 0 {
        assert(a + b =~= a);
    } else {
        assert((a + b).drop_last() =~= a + b.drop_last());
        lemma_leaf_bytes_add(a, b.drop_last(), pointer_bytes);
    }
}

proof fn lemma_padding_bytes(count: nat, pointer_bytes: u32)
    ensures
        leaf_bytes(padding(count), pointer_bytes) == count,
    decreases count,
{
    if count > 0 {
        lemma_padding_bytes((count - 1) as nat, pointer_bytes);
        assert(padding(count).drop_last() =~= padding((count - 1) as nat));
    }
}

/// Payload chunks fill exactly the bytes asked for.
pub proof fn law_chunks_fill(bytes: nat, pointer_bytes: u32)
    ensures
        leaf_bytes(chunks(bytes), pointer_bytes) == bytes,
    decreases bytes,
{
    let empty = Seq::<Leaf>::empty();
    assert(seq![Leaf::I64].drop_last() =~= empty);
    assert(seq![Leaf::I32].drop_last() =~= empty);
    assert(seq![Leaf::I16].drop_last() =~= empty);
    assert(seq![Leaf::I8].drop_last() =~= empty);
    assert(leaf_bytes(empty, pointer_bytes) == 0);
    if bytes >= 8 {
        law_chunks_fill((bytes - 8) as nat, pointer_bytes);
        lemma_leaf_bytes_add(seq![Leaf::I64], chunks((bytes - 8) as nat), pointer_bytes);
    } else if bytes >= 4 {
        law_chunks_fill((bytes - 4) as nat, pointer_bytes);
        lemma_leaf_bytes_add(seq![Leaf::I32], chunks((bytes - 4) as nat), pointer_bytes);
    } else if bytes >= 2 {
        law_chunks_fill((bytes - 2) as nat, pointer_bytes);
        lemma_leaf_bytes_add(seq![Leaf::I16], chunks((bytes - 2) as nat), pointer_bytes);
    }
}

/// Leaves laid out in order fill exactly the bytes up to the end.
pub proof fn law_plan_fills(parts: Seq<Part>, pack: nat, pointer_bytes: u32)
    requires
        pack >= 1,
    ensures
        leaf_bytes(plan_leaves(parts, pack, pointer_bytes), pointer_bytes) == plan_end(
            parts,
            pack,
            pointer_bytes,
        ),
    decreases parts.len(),
{
    if parts.len() > 0 {
        let front = parts.drop_last();
        let last = parts.last();
        law_plan_fills(front, pack, pointer_bytes);
        let before = plan_end(front, pack, pointer_bytes);
        let start = plan_next(parts, pack, pointer_bytes);
        lemma_placed(before, last.align, last.size(pointer_bytes), pack);
        let gap = padding((start - before) as nat);
        let head = plan_leaves(front, pack, pointer_bytes);
        lemma_leaf_bytes_add(head, gap, pointer_bytes);
        lemma_padding_bytes((start - before) as nat, pointer_bytes);
        lemma_leaf_bytes_add(head + gap, last.leaves, pointer_bytes);
    }
}

/// The leaves of an enum fill exactly the bytes up to its rounded end.
pub proof fn law_enum_leaves_fill(
    prefix: Seq<Part>,
    bodies: Seq<Seq<Part>>,
    pack: nat,
    declared: nat,
    pointer_bytes: u32,
)
    requires
        pack >= 1,
    ensures
        leaf_bytes(enum_leaves(prefix, bodies, pack, declared, pointer_bytes), pointer_bytes)
            == rounded(
            payload_start(prefix, bodies, pack, pointer_bytes) + bodies_max(
                bodies,
                pack,
                pointer_bytes,
            ),
            enum_align(prefix, bodies, declared),
        ),
{
    let prefix_end = plan_end(prefix, pack, pointer_bytes);
    let start = payload_start(prefix, bodies, pack, pointer_bytes);
    let size = bodies_max(bodies, pack, pointer_bytes);
    let end = start + size;
    let align = enum_align(prefix, bodies, declared);
    law_plan_fills(prefix, pack, pointer_bytes);
    lemma_placed(prefix_end, bodies_align(bodies), size, pack);
    lemma_padding_bytes((start - prefix_end) as nat, pointer_bytes);
    law_chunks_fill(size, pointer_bytes);
    lemma_rounded(end, align);
    lemma_padding_bytes((rounded(end, align) - end) as nat, pointer_bytes);
    let a = plan_leaves(prefix, pack, pointer_bytes);
    let b = padding((start - prefix_end) as nat);
    let c = chunks(size);
    let d = padding((rounded(end, align) - end) as nat);
    lemma_leaf_bytes_add(a, b, pointer_bytes);
    lemma_leaf_bytes_add(a + b, c, pointer_bytes);
    lemma_leaf_bytes_add(a + b + c, d, pointer_bytes);
}

pub(crate) proof fn lemma_plan_grows(parts: Seq<Part>, index: int, pack: nat, pointer_bytes: u32)
    requires
        pack >= 1,
        0 <= index <= parts.len(),
    ensures
        plan_end(parts.take(index), pack, pointer_bytes) <= plan_end(parts, pack, pointer_bytes),
    decreases parts.len() - index,
{
    if index == parts.len() {
        assert(parts.take(index) =~= parts);
    } else {
        lemma_plan_grows(parts, index + 1, pack, pointer_bytes);
        let longer = parts.take(index + 1);
        assert(longer.drop_last() =~= parts.take(index));
        lemma_placed(
            plan_end(parts.take(index), pack, pointer_bytes),
            longer.last().align,
            longer.last().size(pointer_bytes),
            pack,
        );
    }
}

/// Fields lie at their alignment.
pub proof fn law_fields_are_aligned(
    parts: Seq<Part>,
    index: int,
    pack: nat,
    pointer_bytes: u32,
)
    requires
        pack >= 1,
        0 <= index < parts.len(),
        parts[index].align >= 1,
    ensures
        plan_offset(parts, index, pack, pointer_bytes) % parts[index].align == 0,
{
    let upto = parts.take(index + 1);
    lemma_placed(
        plan_end(upto.drop_last(), pack, pointer_bytes),
        upto.last().align,
        upto.last().size(pointer_bytes),
        pack,
    );
}

/// Fields lie one behind the other, without overlap and inside the whole.
pub proof fn law_fields_do_not_overlap(
    parts: Seq<Part>,
    i: int,
    j: int,
    pack: nat,
    pointer_bytes: u32,
)
    requires
        pack >= 1,
        0 <= i < j < parts.len(),
    ensures
        plan_offset(parts, i, pack, pointer_bytes) + parts[i].size(pointer_bytes) <= plan_offset(
            parts,
            j,
            pack,
            pointer_bytes,
        ),
        plan_offset(parts, j, pack, pointer_bytes) + parts[j].size(pointer_bytes) <= plan_end(
            parts,
            pack,
            pointer_bytes,
        ),
{
    let upto_i = parts.take(i + 1);
    let upto_j = parts.take(j + 1);
    assert(upto_j.drop_last() =~= parts.take(j));
    assert(parts.take(j).take(i + 1) =~= upto_i);
    lemma_plan_grows(parts.take(j), i + 1, pack, pointer_bytes);
    lemma_placed(
        plan_end(upto_j.drop_last(), pack, pointer_bytes),
        upto_j.last().align,
        upto_j.last().size(pointer_bytes),
        pack,
    );
    lemma_plan_grows(parts, j + 1, pack, pointer_bytes);
}

/// Rounds `offset` up to a multiple of `align`.
pub fn round_up(offset: u32, align: u32) -> (r: u32)
    requires
        rounded(offset as nat, align as nat) <= u32::MAX,
    ensures
        r == rounded(offset as nat, align as nat),
{
    if align <= 1 {
        offset
    } else {
        let over: u32 = offset % align;
        if over == 0 {
            offset
        } else {
            offset + (align - over)
        }
    }
}

/// Where a field goes that is to start at `offset` or later.
pub fn place_field(offset: u32, field_align: u32, field_size: u32, pack: u32) -> (r: u32)
    requires
        pack >= 1,
        placed(offset as nat, field_align as nat, field_size as nat, pack as nat) + field_size
            <= u32::MAX,
    ensures
        r == placed(offset as nat, field_align as nat, field_size as nat, pack as nat),
{
    proof {
        lemma_placed(offset as nat, field_align as nat, field_size as nat, pack as nat);
        lemma_rounded(offset as nat, field_align as nat);
    }
    let aligned: u32 = round_up(offset, field_align);
    let in_chunk: u32 = aligned % pack;
    assert(in_chunk <= aligned) by {
        vstd::arithmetic::div_mod::lemma_mod_decreases(aligned as nat, pack as nat);
    }
    if in_chunk == 0 || in_chunk + field_size <= pack {
        aligned
    } else {
        proof {
            lemma_rounded((aligned - in_chunk + pack) as nat, field_align as nat);
        }
        round_up(aligned - in_chunk + pack, field_align)
    }
}

/// Integer leaves that fill `bytes` bytes, widest first.
pub fn payload_chunks(bytes: u32) -> (list: Vec<Leaf>)
    ensures
        list@ == chunks(bytes as nat),
{
    let mut list: Vec<Leaf> = Vec::new();
    let mut rest: u32 = bytes;
    while rest >= 8
        invariant
            list@ + chunks(rest as nat) =~= chunks(bytes as nat),
        decreases rest,
    {
        list.push(Leaf::I64);
        rest = rest - 8;
    }
    let ghost before = list@;
    let ghost left = rest;
    if rest >= 4 {
        list.push(Leaf::I32);
        rest = rest - 4;
    }
    assert(before + chunks(left as nat) =~= list@ + chunks(rest as nat));
    let ghost before = list@;
    let ghost left = rest;
    if rest >= 2 {
        list.push(Leaf::I16);
        rest = rest - 2;
    }
    assert(before + chunks(left as nat) =~= list@ + chunks(rest as nat));
    if rest >= 1 {
        list.push(Leaf::I8);
    }
    assert(list@ =~= chunks(bytes as nat));
    list
}

/// The greatest power of two's exponent that `n` reaches.
pub open spec fn floor_log2(n: nat) -> nat
    decreases n,
{
    if n <= 1 {
        0
    } else {
        1 + floor_log2(n / 2)
    }
}

proof fn lemma_log2_bound(n: nat, k: nat)
    requires
        n < vstd::arithmetic::power2::pow2(k + 1),
    ensures
        floor_log2(n) <= k,
    decreases k,
{
    vstd::arithmetic::power2::lemma_pow2_unfold(k + 1);
    if k == 0 {
        vstd::arithmetic::power2::lemma2_to64();
    } else if n > 1 {
        lemma_log2_bound(n / 2, (k - 1) as nat);
    }
}

/// The exponent of a stack slot's alignment: that of the type, at least 16
/// bytes.
pub fn stack_align_shift(align: u32) -> (shift: u8)
    ensures
        shift == larger(floor_log2(align as nat), 4),
        shift < 32,
{
    let mut shift: u8 = 0;
    let mut rest: u32 = align;
    proof {
        vstd::arithmetic::power2::lemma2_to64();
        lemma_log2_bound(align as nat, 31);
    }
    while rest > 1
        invariant
            shift + floor_log2(rest as nat) == floor_log2(align as nat),
            floor_log2(align as nat) <= 31,
        decreases rest,
    {
        rest = rest / 2;
        shift = shift + 1;
    }
    if shift < 4 {
        4
    } else {
        shift
    }
}

/// A field as layout sees it.
#[derive(Debug)]
pub struct FieldPart {
    pub leaves: Vec<Leaf>,
    pub align: u32,
}

impl View for FieldPart {
    type V = Part;

    open spec fn view(&self) -> Part {
        Part { leaves: self.leaves@, align: self.align as nat }
    }
}

/// The views of some fields.
pub open spec fn part_views(parts: Seq<FieldPart>) -> Seq<Part> {
    parts.map_values(|part: FieldPart| part@)
}

/// Where some fields lie.
#[derive(Debug)]
pub struct FieldLayout {
    pub byte_offsets: Vec<u32>,
    pub leaf_starts: Vec<usize>,
    pub leaves: Vec<Leaf>,
    pub packed_end: u32,
}

impl FieldLayout {
    /// Whether this is the layout of `parts`.
    pub open spec fn lays_out(&self, parts: Seq<Part>, pack: nat, pointer_bytes: u32) -> bool {
        &&& self.byte_offsets@.len() == parts.len()
        &&& self.leaf_starts@.len() == parts.len()
        &&& forall|i: int|
            0 <= i < parts.len() ==> #[trigger] self.byte_offsets@[i] == plan_offset(
                parts,
                i,
                pack,
                pointer_bytes,
            )
        &&& forall|i: int|
            0 <= i < parts.len() ==> #[trigger] self.leaf_starts@[i] == plan_start(
                parts,
                i,
                pack,
                pointer_bytes,
            )
        &&& self.leaves@ == plan_leaves(parts, pack, pointer_bytes)
        &&& self.packed_end == plan_end(parts, pack, pointer_bytes)
    }
}

fn push_padding(leaves: &mut Vec<Leaf>, count: u32)
    ensures
        final(leaves)@ == old(leaves)@ + padding(count as nat),
{
    let mut k: u32 = 0;
    while k < count
        invariant
            k <= count,
            leaves@ =~= old(leaves)@ + padding(k as nat),
        decreases count - k,
    {
        leaves.push(Leaf::I8);
        k = k + 1;
    }
}

fn push_leaves(leaves: &mut Vec<Leaf>, more: &Vec<Leaf>)
    ensures
        final(leaves)@ == old(leaves)@ + more@,
{
    let mut k: usize = 0;
    while k < more.len()
        invariant
            k <= more@.len(),
            leaves@ =~= old(leaves)@ + more@.take(k as int),
        decreases more.len() - k,
    {
        leaves.push(more[k]);
        k = k + 1;
    }
    assert(more@.take(k as int) =~= more@);
}

/// Bytes of some leaves.
pub fn bytes_of_leaves(leaves: &Vec<Leaf>, pointer_bytes: u32) -> (bytes: u32)
    requires
        leaf_bytes(leaves@, pointer_bytes) <= u32::MAX,
    ensures
        bytes == leaf_bytes(leaves@, pointer_bytes),
{
    let mut bytes: u32 = 0;
    let mut k: usize = 0;
    while k < leaves.len()
        invariant
            k <= leaves@.len(),
            bytes == leaf_bytes(leaves@.take(k as int), pointer_bytes),
            leaf_bytes(leaves@, pointer_bytes) <= u32::MAX,
        decreases leaves.len() - k,
    {
        proof {
            let next = leaves@.take(k as int + 1);
            assert(next.drop_last() =~= leaves@.take(k as int));
            assert(leaves@ =~= next + leaves@.skip(k as int + 1));
            lemma_leaf_bytes_add(next, leaves@.skip(k as int + 1), pointer_bytes);
        }
        bytes = bytes + leaves[k].bytes(pointer_bytes);
        k = k + 1;
    }
    assert(leaves@.take(k as int) =~= leaves@);
    bytes
}

/// Lays out fields in order.
pub fn layout_parts(parts: &Vec<FieldPart>, pack: u32, pointer_bytes: u32) -> (layout: FieldLayout)
    requires
        pack >= 1,
        plan_end(part_views(parts@), pack as nat, pointer_bytes) <= u32::MAX,
    ensures
        layout.lays_out(part_views(parts@), pack as nat, pointer_bytes),
{
    let ghost all = part_views(parts@);
    let mut byte_offsets: Vec<u32> = Vec::new();
    let mut leaf_starts: Vec<usize> = Vec::new();
    let mut leaves: Vec<Leaf> = Vec::new();
    let mut offset: u32 = 0;
    let mut i: usize = 0;
    while i < parts.len()
        invariant
            i <= parts@.len(),
            pack >= 1,
            all == part_views(parts@),
            plan_end(all, pack as nat, pointer_bytes) <= u32::MAX,
            byte_offsets@.len() == i,
            leaf_starts@.len() == i,
            forall|k: int|
                0 <= k < i ==> #[trigger] byte_offsets@[k] == plan_offset(
                    all,
                    k,
                    pack as nat,
                    pointer_bytes,
                ),
            forall|k: int|
                0 <= k < i ==> #[trigger] leaf_starts@[k] == plan_start(
                    all,
                    k,
                    pack as nat,
                    pointer_bytes,
                ),
            leaves@ == plan_leaves(all.take(i as int), pack as nat, pointer_bytes),
            offset == plan_end(all.take(i as int), pack as nat, pointer_bytes),
        decreases parts.len() - i,
    {
        let ghost next = all.take(i as int + 1);
        proof {
            assert(next.drop_last() =~= all.take(i as int));
            assert(next.last() == parts@[i as int]@);
            lemma_plan_grows(all, i as int + 1, pack as nat, pointer_bytes);
            lemma_placed(
                offset as nat,
                next.last().align,
                next.last().size(pointer_bytes),
                pack as nat,
            );
        }
        let field_size: u32 = bytes_of_leaves(&parts[i].leaves, pointer_bytes);
        let at: u32 = place_field(offset, parts[i].align, field_size, pack);
        push_padding(&mut leaves, at - offset);
        byte_offsets.push(at);
        leaf_starts.push(leaves.len());
        offset = at + field_size;
        push_leaves(&mut leaves, &parts[i].leaves);
        i = i + 1;
    }
    assert(all.take(i as int) =~= all);
    FieldLayout { byte_offsets, leaf_starts, leaves, packed_end: offset }
}

/// The alignment a type asks of its address.
pub fn type_alignment(ty: &ResolvedType) -> (align: u32)
    ensures
        align == align_of(*ty),
    decreases ty, 0int,
{
    match ty {
        ResolvedType::Struct(cell) => max_of(cell.layout.align, fields_alignment(&cell.fields)),
        ResolvedType::Union(cell) => fields_alignment(&cell.fields),
        ResolvedType::Enum { cell, .. } => {
            let tag: u32 = max_of(1, type_alignment(&cell.tag_type));
            let with_header: u32 = max_of(tag, fields_alignment(&cell.header));
            let prefix: u32 = max_of(with_header, fields_alignment(&cell.dynamic_fields));
            let whole: u32 = max_of(prefix, variants_alignment(&cell.variants));
            max_of(cell.layout.align, whole)
        },
        ResolvedType::AnonymousEnum { shape, .. } => types_alignment(&shape.members),
        ResolvedType::SizedArray(item, _) => type_alignment(item),
        _ => 1,
    }
}

fn max_of(a: u32, b: u32) -> (r: u32)
    ensures
        r == larger(a as nat, b as nat),
{
    if a < b {
        b
    } else {
        a
    }
}

fn fields_alignment(fields: &Vec<ResolvedField>) -> (align: u32)
    ensures
        align == fields_align(fields@),
    decreases fields, 0int,
{
    let mut align: u32 = 1;
    let mut i: usize = 0;
    while i < fields.len()
        invariant
            i <= fields@.len(),
            align == fields_align(fields@.take(i as int)),
        decreases fields.len() - i,
    {
        assert(fields@.take(i as int + 1).drop_last() =~= fields@.take(i as int));
        align = max_of(align, type_alignment(&fields[i].ty));
        i = i + 1;
    }
    assert(fields@.take(i as int) =~= fields@);
    align
}

fn types_alignment(types: &Vec<ResolvedType>) -> (align: u32)
    ensures
        align == types_align(types@),
    decreases types, 0int,
{
    let mut align: u32 = 1;
    let mut i: usize = 0;
    while i < types.len()
        invariant
            i <= types@.len(),
            align == types_align(types@.take(i as int)),
        decreases types.len() - i,
    {
        assert(types@.take(i as int + 1).drop_last() =~= types@.take(i as int));
        align = max_of(align, type_alignment(&types[i]));
        i = i + 1;
    }
    assert(types@.take(i as int) =~= types@);
    align
}

fn variants_alignment(variants: &Vec<ResolvedEnumVariant>) -> (align: u32)
    ensures
        align == variants_align(variants@),
    decreases variants, 0int,
{
    let mut align: u32 = 1;
    let mut i: usize = 0;
    while i < variants.len()
        invariant
            i <= variants@.len(),
            align == variants_align(variants@.take(i as int)),
        decreases variants.len() - i,
    {
        assert(variants@.take(i as int + 1).drop_last() =~= variants@.take(i as int));
        align = max_of(align, fields_alignment(&variants[i].fields));
        i = i + 1;
    }
    assert(variants@.take(i as int) =~= variants@);
    align
}

pub(crate) proof fn lemma_field_parts(fields: Seq<ResolvedField>, pointer_bytes: u32)
    ensures
        field_parts(fields, pointer_bytes).len() == fields.len(),
        parts_align(field_parts(fields, pointer_bytes)) == fields_align(fields),
        forall|i: int|
            0 <= i < fields.len() ==> #[trigger] field_parts(fields, pointer_bytes)[i] == (Part {
                leaves: leaves_spec(fields[i].ty, pointer_bytes),
                align: align_of(fields[i].ty),
            }),
    decreases fields.len(),
{
    if fields.len() > 0 {
        let front = fields.drop_last();
        lemma_field_parts(front, pointer_bytes);
        let parts = field_parts(fields, pointer_bytes);
        assert(parts.drop_last() =~= field_parts(front, pointer_bytes));
        assert forall|i: int| 0 <= i < fields.len() implies #[trigger] parts[i] == (Part {
            leaves: leaves_spec(fields[i].ty, pointer_bytes),
            align: align_of(fields[i].ty),
        }) by {
            if i < front.len() {
                assert(field_parts(front, pointer_bytes)[i].align == align_of(front[i].ty));
            }
        }
    }
}

pub(crate) proof fn lemma_type_parts(types: Seq<ResolvedType>, pointer_bytes: u32)
    ensures
        type_parts(types, pointer_bytes).len() == types.len(),
        parts_align(type_parts(types, pointer_bytes)) == types_align(types),
        forall|i: int|
            0 <= i < types.len() ==> #[trigger] type_parts(types, pointer_bytes)[i] == (Part {
                leaves: leaves_spec(types[i], pointer_bytes),
                align: align_of(types[i]),
            }),
    decreases types.len(),
{
    if types.len() > 0 {
        let front = types.drop_last();
        lemma_type_parts(front, pointer_bytes);
        let parts = type_parts(types, pointer_bytes);
        assert(parts.drop_last() =~= type_parts(front, pointer_bytes));
        assert forall|i: int| 0 <= i < types.len() implies #[trigger] parts[i] == (Part {
            leaves: leaves_spec(types[i], pointer_bytes),
            align: align_of(types[i]),
        }) by {
            if i < front.len() {
                assert(type_parts(front, pointer_bytes)[i].align == align_of(front[i]));
            }
        }
    }
}

pub(crate) proof fn lemma_variant_parts(variants: Seq<ResolvedEnumVariant>, pointer_bytes: u32)
    ensures
        variant_parts(variants, pointer_bytes).len() == variants.len(),
        bodies_align(variant_parts(variants, pointer_bytes)) == variants_align(variants),
        forall|i: int|
            0 <= i < variants.len() ==> #[trigger] variant_parts(variants, pointer_bytes)[i]
                == field_parts(variants[i].fields@, pointer_bytes),
    decreases variants.len(),
{
    if variants.len() > 0 {
        let front = variants.drop_last();
        lemma_variant_parts(front, pointer_bytes);
        lemma_field_parts(variants.last().fields@, pointer_bytes);
        let parts = variant_parts(variants, pointer_bytes);
        assert(parts.drop_last() =~= variant_parts(front, pointer_bytes));
        assert forall|i: int| 0 <= i < variants.len() implies #[trigger] parts[i] == field_parts(
            variants[i].fields@,
            pointer_bytes,
        ) by {
            if i < front.len() {
                assert(variant_parts(front, pointer_bytes)[i] == field_parts(
                    front[i].fields@,
                    pointer_bytes,
                ));
            }
        }
    }
}

pub(crate) proof fn lemma_member_parts(members: Seq<ResolvedType>, pointer_bytes: u32)
    ensures
        member_parts(members, pointer_bytes).len() == members.len(),
        bodies_align(member_parts(members, pointer_bytes)) == types_align(members),
        forall|i: int|
            0 <= i < members.len() ==> #[trigger] member_parts(members, pointer_bytes)[i] == seq![
                Part {
                    leaves: leaves_spec(members[i], pointer_bytes),
                    align: align_of(members[i]),
                },
            ],
    decreases members.len(),
{
    if members.len() > 0 {
        let front = members.drop_last();
        lemma_member_parts(front, pointer_bytes);
        let parts = member_parts(members, pointer_bytes);
        assert(parts.drop_last() =~= member_parts(front, pointer_bytes));
        let body = parts.last();
        assert(body.drop_last() =~= Seq::empty());
        assert(parts_align(Seq::<Part>::empty()) == 1);
        law_alignment_is_positive(&members.last());
        assert(parts_align(body) == align_of(members.last()));
        assert forall|i: int| 0 <= i < members.len() implies #[trigger] parts[i] == seq![
            Part {
                leaves: leaves_spec(members[i], pointer_bytes),
                align: align_of(members[i]),
            },
        ] by {
            if i < front.len() {
                assert(member_parts(front, pointer_bytes)[i].len() == 1);
            }
        }
    }
}

pub(crate) proof fn lemma_fields_align_positive(fields: Seq<ResolvedField>)
    ensures
        fields_align(fields) >= 1,
    decreases fields.len(),
{
    if fields.len() > 0 {
        lemma_fields_align_positive(fields.drop_last());
    }
}

pub(crate) proof fn lemma_types_align_positive(types: Seq<ResolvedType>)
    ensures
        types_align(types) >= 1,
    decreases types.len(),
{
    if types.len() > 0 {
        lemma_types_align_positive(types.drop_last());
    }
}

/// Every type asks for an alignment of at least one byte.
pub proof fn law_alignment_is_positive(ty: &ResolvedType)
    ensures
        align_of(*ty) >= 1,
    decreases ty,
{
    match ty {
        ResolvedType::Struct(cell) => lemma_fields_align_positive(cell.fields@),
        ResolvedType::Union(cell) => lemma_fields_align_positive(cell.fields@),
        ResolvedType::AnonymousEnum { shape, .. } => lemma_types_align_positive(shape.members@),
        ResolvedType::SizedArray(item, _) => law_alignment_is_positive(&**item),
        _ => {},
    }
}

fn one_leaf(leaf: Leaf) -> (leaves: Vec<Leaf>)
    ensures
        leaves@ == seq![leaf],
{
    let mut leaves: Vec<Leaf> = Vec::new();
    leaves.push(leaf);
    assert(leaves@ =~= seq![leaf]);
    leaves
}

fn two_leaves(first: Leaf, second: Leaf) -> (leaves: Vec<Leaf>)
    ensures
        leaves@ == seq![first, second],
{
    let mut leaves: Vec<Leaf> = Vec::new();
    leaves.push(first);
    leaves.push(second);
    assert(leaves@ =~= seq![first, second]);
    leaves
}

/// The scalar leaves of a value of type `ty`, in order.
pub fn leaves_of(ty: &ResolvedType, pointer_bytes: u32) -> (leaves: Vec<Leaf>)
    requires
        measurable(*ty, pointer_bytes),
    ensures
        leaves@ == leaves_spec(*ty, pointer_bytes),
    decreases ty, 0int,
{
    match ty {
        ResolvedType::Void | ResolvedType::Never => {
            let leaves: Vec<Leaf> = Vec::new();
            assert(leaves@ =~= Seq::empty());
            leaves
        },
        ResolvedType::Bool => one_leaf(Leaf::I8),
        ResolvedType::Char => one_leaf(Leaf::I32),
        ResolvedType::I8 | ResolvedType::U8 => one_leaf(Leaf::I8),
        ResolvedType::I16 | ResolvedType::U16 => one_leaf(Leaf::I16),
        ResolvedType::I32 | ResolvedType::U32 => one_leaf(Leaf::I32),
        ResolvedType::I64 | ResolvedType::U64 => one_leaf(Leaf::I64),
        ResolvedType::USize | ResolvedType::ISize => one_leaf(Leaf::Size),
        ResolvedType::F32 => one_leaf(Leaf::F32),
        ResolvedType::F64 => one_leaf(Leaf::F64),
        ResolvedType::Struct(cell) => struct_leaves(cell, pointer_bytes),
        ResolvedType::Union(cell) => {
            let parts: Vec<FieldPart> = fields_to_parts(&cell.fields, pointer_bytes);
            proof {
                let all = field_parts(cell.fields@, pointer_bytes);
                law_chunks_fill(
                    rounded(parts_max(all, pointer_bytes), fields_align(cell.fields@)),
                    pointer_bytes,
                );
                lemma_rounded(parts_max(all, pointer_bytes), fields_align(cell.fields@));
            }
            let widest: u32 = widest_part(&parts, pointer_bytes);
            payload_chunks(round_up(widest, fields_alignment(&cell.fields)))
        },
        ResolvedType::Enum { cell, .. } => named_enum_leaves(cell, pointer_bytes),
        ResolvedType::AnonymousEnum { shape, .. } => {
            let mut prefix: Vec<FieldPart> = Vec::new();
            prefix.push(FieldPart { leaves: one_leaf(Leaf::I32), align: 1 });
            let bodies: Vec<Vec<FieldPart>> = members_to_parts(&shape.members, pointer_bytes);
            proof {
                assert(part_views(prefix@) =~= seq![anonymous_tag_part()]);
                law_enum_leaves_fill(
                    seq![anonymous_tag_part()],
                    member_parts(shape.members@, pointer_bytes),
                    1,
                    1,
                    pointer_bytes,
                );
            }
            lay_out_enum(&prefix, &bodies, 1, 1, pointer_bytes)
        },
        ResolvedType::SizedArray(item, size) => {
            let item_leaves: Vec<Leaf> = leaves_of(item, pointer_bytes);
            repeat_leaves(&item_leaves, *size)
        },
        ResolvedType::Slice { .. } | ResolvedType::Str { .. } => two_leaves(Leaf::Ptr, Leaf::I32),
        ResolvedType::Pointer { .. } | ResolvedType::Array(_, _) => one_leaf(Leaf::Ptr),
        ResolvedType::Function(_) => one_leaf(Leaf::FnPtr),
        ResolvedType::SpecObject { .. } => two_leaves(Leaf::Ptr, Leaf::Ptr),
        ResolvedType::Spec(_) => {
            let leaves: Vec<Leaf> = Vec::new();
            leaves
        },
    }
}

fn repeat_leaves(item: &Vec<Leaf>, count: u32) -> (leaves: Vec<Leaf>)
    ensures
        leaves@ == repeated(item@, count as nat),
{
    let mut leaves: Vec<Leaf> = Vec::new();
    let mut k: u32 = 0;
    assert(leaves@ =~= Seq::empty());
    while k < count
        invariant
            k <= count,
            leaves@ == repeated(item@, k as nat),
        decreases count - k,
    {
        push_leaves(&mut leaves, item);
        k = k + 1;
    }
    leaves
}

fn struct_leaves(cell: &ResolvedStructType, pointer_bytes: u32) -> (leaves: Vec<Leaf>)
    requires
        measurable(ResolvedType::Struct(Rc::new(*cell)), pointer_bytes),
    ensures
        leaves@ == leaves_spec(ResolvedType::Struct(Rc::new(*cell)), pointer_bytes),
    decreases cell, 0int,
{
    let parts: Vec<FieldPart> = fields_to_parts(&cell.fields, pointer_bytes);
    proof {
        lemma_struct_size(cell, pointer_bytes);
    }
    let layout: FieldLayout = layout_parts(&parts, cell.layout.pack, pointer_bytes);
    let align: u32 = max_of(cell.layout.align, fields_alignment(&cell.fields));
    let final_size: u32 = round_up(layout.packed_end, align);
    let padding_bytes: u32 = final_size - layout.packed_end;
    let mut leaves: Vec<Leaf> = layout.leaves;
    push_padding(&mut leaves, padding_bytes);
    leaves
}

pub(crate) proof fn lemma_struct_size(cell: &ResolvedStructType, pointer_bytes: u32)
    requires
        cell.layout.pack >= 1,
    ensures
        ({
            let parts = field_parts(cell.fields@, pointer_bytes);
            let end = plan_end(parts, cell.layout.pack as nat, pointer_bytes);
            let align = larger(cell.layout.align as nat, fields_align(cell.fields@));
            &&& size_of(ResolvedType::Struct(Rc::new(*cell)), pointer_bytes) == rounded(end, align)
            &&& rounded(end, align) >= end
            &&& rounded(end, align) % align == 0
        }),
{
    let parts = field_parts(cell.fields@, pointer_bytes);
    let pack = cell.layout.pack as nat;
    let end = plan_end(parts, pack, pointer_bytes);
    let align = larger(cell.layout.align as nat, fields_align(cell.fields@));
    lemma_fields_align_positive(cell.fields@);
    law_plan_fills(parts, pack, pointer_bytes);
    lemma_rounded(end, align);
    lemma_padding_bytes((rounded(end, align) - end) as nat, pointer_bytes);
    lemma_leaf_bytes_add(
        plan_leaves(parts, pack, pointer_bytes),
        padding((rounded(end, align) - end) as nat),
        pointer_bytes,
    );
}

fn named_enum_leaves(cell: &ResolvedEnumType, pointer_bytes: u32) -> (leaves: Vec<Leaf>)
    requires
        measurable(
            ResolvedType::Enum { cell: Rc::new(*cell), variant: None },
            pointer_bytes,
        ),
    ensures
        leaves@ == leaves_spec(
            ResolvedType::Enum { cell: Rc::new(*cell), variant: None },
            pointer_bytes,
        ),
    decreases cell, 0int,
{
    let mut prefix: Vec<FieldPart> = Vec::new();
    prefix.push(
        FieldPart {
            leaves: leaves_of(&cell.tag_type, pointer_bytes),
            align: type_alignment(&cell.tag_type),
        },
    );
    let ghost tag = prefix@[0]@;
    let mut header: Vec<FieldPart> = fields_to_parts(&cell.header, pointer_bytes);
    let ghost header_parts = header@;
    prefix.append(&mut header);
    let mut dynamic: Vec<FieldPart> = fields_to_parts(&cell.dynamic_fields, pointer_bytes);
    let ghost dynamic_parts = dynamic@;
    prefix.append(&mut dynamic);
    let bodies: Vec<Vec<FieldPart>> = variants_to_parts(&cell.variants, pointer_bytes);
    proof {
        let all = seq![tag] + field_parts(cell.header@, pointer_bytes) + field_parts(
            cell.dynamic_fields@,
            pointer_bytes,
        );
        assert(part_views(prefix@) =~= seq![tag] + part_views(header_parts) + part_views(
            dynamic_parts,
        ));
        law_enum_leaves_fill(
            all,
            variant_parts(cell.variants@, pointer_bytes),
            cell.layout.pack as nat,
            cell.layout.align as nat,
            pointer_bytes,
        );
    }
    lay_out_enum(&prefix, &bodies, cell.layout.pack, cell.layout.align, pointer_bytes)
}

/// The views of some bodies.
pub open spec fn body_views(bodies: Seq<Vec<FieldPart>>) -> Seq<Seq<Part>> {
    bodies.map_values(|body: Vec<FieldPart>| part_views(body@))
}

fn widest_part(parts: &Vec<FieldPart>, pointer_bytes: u32) -> (bytes: u32)
    requires
        parts_max(part_views(parts@), pointer_bytes) <= u32::MAX,
    ensures
        bytes == parts_max(part_views(parts@), pointer_bytes),
{
    let ghost all = part_views(parts@);
    let mut bytes: u32 = 0;
    let mut i: usize = 0;
    while i < parts.len()
        invariant
            i <= parts@.len(),
            all == part_views(parts@),
            bytes == parts_max(all.take(i as int), pointer_bytes),
            parts_max(all, pointer_bytes) <= u32::MAX,
        decreases parts.len() - i,
    {
        proof {
            assert(all.take(i as int + 1).drop_last() =~= all.take(i as int));
            lemma_parts_max_grows(all, i as int + 1, pointer_bytes);
        }
        bytes = max_of(bytes, bytes_of_leaves(&parts[i].leaves, pointer_bytes));
        i = i + 1;
    }
    assert(all.take(i as int) =~= all);
    bytes
}

pub(crate) proof fn lemma_parts_max_grows(parts: Seq<Part>, index: int, pointer_bytes: u32)
    requires
        0 <= index <= parts.len(),
    ensures
        parts_max(parts.take(index), pointer_bytes) <= parts_max(parts, pointer_bytes),
    decreases parts.len() - index,
{
    if index == parts.len() {
        assert(parts.take(index) =~= parts);
    } else {
        lemma_parts_max_grows(parts, index + 1, pointer_bytes);
        assert(parts.take(index + 1).drop_last() =~= parts.take(index));
    }
}

pub(crate) proof fn lemma_bodies_max_grows(
    bodies: Seq<Seq<Part>>,
    index: int,
    pack: nat,
    pointer_bytes: u32,
)
    requires
        0 <= index <= bodies.len(),
    ensures
        bodies_max(bodies.take(index), pack, pointer_bytes) <= bodies_max(
            bodies,
            pack,
            pointer_bytes,
        ),
    decreases bodies.len() - index,
{
    if index == bodies.len() {
        assert(bodies.take(index) =~= bodies);
    } else {
        lemma_bodies_max_grows(bodies, index + 1, pack, pointer_bytes);
        assert(bodies.take(index + 1).drop_last() =~= bodies.take(index));
    }
}

fn parts_alignment(parts: &Vec<FieldPart>) -> (align: u32)
    ensures
        align == parts_align(part_views(parts@)),
{
    let ghost all = part_views(parts@);
    let mut align: u32 = 1;
    let mut i: usize = 0;
    while i < parts.len()
        invariant
            i <= parts@.len(),
            all == part_views(parts@),
            align == parts_align(all.take(i as int)),
        decreases parts.len() - i,
    {
        assert(all.take(i as int + 1).drop_last() =~= all.take(i as int));
        align = max_of(align, parts[i].align);
        i = i + 1;
    }
    assert(all.take(i as int) =~= all);
    align
}

fn bodies_alignment(bodies: &Vec<Vec<FieldPart>>) -> (align: u32)
    ensures
        align == bodies_align(body_views(bodies@)),
{
    let ghost all = body_views(bodies@);
    let mut align: u32 = 1;
    let mut i: usize = 0;
    while i < bodies.len()
        invariant
            i <= bodies@.len(),
            all == body_views(bodies@),
            align == bodies_align(all.take(i as int)),
        decreases bodies.len() - i,
    {
        assert(all.take(i as int + 1).drop_last() =~= all.take(i as int));
        align = max_of(align, parts_alignment(&bodies[i]));
        i = i + 1;
    }
    assert(all.take(i as int) =~= all);
    align
}

fn widest_body(bodies: &Vec<Vec<FieldPart>>, pack: u32, pointer_bytes: u32) -> (bytes: u32)
    requires
        pack >= 1,
        bodies_max(body_views(bodies@), pack as nat, pointer_bytes) <= u32::MAX,
    ensures
        bytes == bodies_max(body_views(bodies@), pack as nat, pointer_bytes),
{
    let ghost all = body_views(bodies@);
    let mut bytes: u32 = 0;
    let mut i: usize = 0;
    while i < bodies.len()
        invariant
            i <= bodies@.len(),
            pack >= 1,
            all == body_views(bodies@),
            bytes == bodies_max(all.take(i as int), pack as nat, pointer_bytes),
            bodies_max(all, pack as nat, pointer_bytes) <= u32::MAX,
        decreases bodies.len() - i,
    {
        proof {
            assert(all.take(i as int + 1).drop_last() =~= all.take(i as int));
            lemma_bodies_max_grows(all, i as int + 1, pack as nat, pointer_bytes);
        }
        let layout: FieldLayout = layout_parts(&bodies[i], pack, pointer_bytes);
        bytes = max_of(bytes, layout.packed_end);
        i = i + 1;
    }
    assert(all.take(i as int) =~= all);
    bytes
}

fn lay_out_enum(
    prefix: &Vec<FieldPart>,
    bodies: &Vec<Vec<FieldPart>>,
    pack: u32,
    declared: u32,
    pointer_bytes: u32,
) -> (leaves: Vec<Leaf>)
    requires
        pack >= 1,
        rounded(
            payload_start(part_views(prefix@), body_views(bodies@), pack as nat, pointer_bytes)
                + bodies_max(body_views(bodies@), pack as nat, pointer_bytes),
            enum_align(part_views(prefix@), body_views(bodies@), declared as nat),
        ) <= u32::MAX,
    ensures
        leaves@ == enum_leaves(
            part_views(prefix@),
            body_views(bodies@),
            pack as nat,
            declared as nat,
            pointer_bytes,
        ),
{
    let ghost all = part_views(prefix@);
    let ghost rest = body_views(bodies@);
    proof {
        lemma_rounded(
            payload_start(all, rest, pack as nat, pointer_bytes) + bodies_max(
                rest,
                pack as nat,
                pointer_bytes,
            ),
            enum_align(all, rest, declared as nat),
        );
        lemma_placed(
            plan_end(all, pack as nat, pointer_bytes),
            bodies_align(rest),
            bodies_max(rest, pack as nat, pointer_bytes),
            pack as nat,
        );
    }
    let layout: FieldLayout = layout_parts(prefix, pack, pointer_bytes);
    let payload_size: u32 = widest_body(bodies, pack, pointer_bytes);
    let body_align: u32 = bodies_alignment(bodies);
    let payload_offset: u32 = place_field(layout.packed_end, body_align, payload_size, pack);
    let gap: u32 = payload_offset - layout.packed_end;
    let mut leaves: Vec<Leaf> = layout.leaves;
    push_padding(&mut leaves, gap);
    let payload: Vec<Leaf> = payload_chunks(payload_size);
    push_leaves(&mut leaves, &payload);
    let end: u32 = payload_offset + payload_size;
    let align: u32 = max_of(declared, max_of(parts_alignment(prefix), body_align));
    push_padding(&mut leaves, round_up(end, align) - end);
    leaves
}

fn fields_to_parts(fields: &Vec<ResolvedField>, pointer_bytes: u32) -> (parts: Vec<FieldPart>)
    requires
        fields_measurable(fields@, pointer_bytes),
    ensures
        part_views(parts@) == field_parts(fields@, pointer_bytes),
    decreases fields, 0int,
{
    let mut parts: Vec<FieldPart> = Vec::new();
    let mut i: usize = 0;
    assert(part_views(parts@) =~= Seq::empty());
    while i < fields.len()
        invariant
            i <= fields@.len(),
            fields_measurable(fields@, pointer_bytes),
            part_views(parts@) == field_parts(fields@.take(i as int), pointer_bytes),
        decreases fields.len() - i,
    {
        assert(fields@.take(i as int + 1).drop_last() =~= fields@.take(i as int));
        assert(measurable(fields@[i as int].ty, pointer_bytes));
        let ghost before = parts@;
        parts.push(
            FieldPart {
                leaves: leaves_of(&fields[i].ty, pointer_bytes),
                align: type_alignment(&fields[i].ty),
            },
        );
        assert(part_views(parts@) =~= part_views(before).push(parts@.last()@));
        i = i + 1;
    }
    assert(fields@.take(i as int) =~= fields@);
    parts
}

fn types_to_parts(types: &Vec<ResolvedType>, pointer_bytes: u32) -> (parts: Vec<FieldPart>)
    requires
        types_measurable(types@, pointer_bytes),
    ensures
        part_views(parts@) == type_parts(types@, pointer_bytes),
{
    let mut parts: Vec<FieldPart> = Vec::new();
    let mut i: usize = 0;
    assert(part_views(parts@) =~= Seq::empty());
    while i < types.len()
        invariant
            i <= types@.len(),
            types_measurable(types@, pointer_bytes),
            part_views(parts@) == type_parts(types@.take(i as int), pointer_bytes),
        decreases types.len() - i,
    {
        assert(types@.take(i as int + 1).drop_last() =~= types@.take(i as int));
        assert(measurable(types@[i as int], pointer_bytes));
        let ghost before = parts@;
        parts.push(
            FieldPart {
                leaves: leaves_of(&types[i], pointer_bytes),
                align: type_alignment(&types[i]),
            },
        );
        assert(part_views(parts@) =~= part_views(before).push(parts@.last()@));
        i = i + 1;
    }
    assert(types@.take(i as int) =~= types@);
    parts
}

fn variants_to_parts(variants: &Vec<ResolvedEnumVariant>, pointer_bytes: u32) -> (bodies: Vec<
    Vec<FieldPart>,
>)
    requires
        variants_measurable(variants@, pointer_bytes),
    ensures
        body_views(bodies@) == variant_parts(variants@, pointer_bytes),
    decreases variants, 0int,
{
    let mut bodies: Vec<Vec<FieldPart>> = Vec::new();
    let mut i: usize = 0;
    assert(body_views(bodies@) =~= Seq::empty());
    while i < variants.len()
        invariant
            i <= variants@.len(),
            variants_measurable(variants@, pointer_bytes),
            body_views(bodies@) == variant_parts(variants@.take(i as int), pointer_bytes),
        decreases variants.len() - i,
    {
        assert(variants@.take(i as int + 1).drop_last() =~= variants@.take(i as int));
        assert(fields_measurable(variants@[i as int].fields@, pointer_bytes));
        let ghost before = bodies@;
        bodies.push(fields_to_parts(&variants[i].fields, pointer_bytes));
        assert(body_views(bodies@) =~= body_views(before).push(part_views(bodies@.last()@)));
        i = i + 1;
    }
    assert(variants@.take(i as int) =~= variants@);
    bodies
}

fn members_to_parts(members: &Vec<ResolvedType>, pointer_bytes: u32) -> (bodies: Vec<
    Vec<FieldPart>,
>)
    requires
        types_measurable(members@, pointer_bytes),
    ensures
        body_views(bodies@) == member_parts(members@, pointer_bytes),
    decreases members, 0int,
{
    let mut bodies: Vec<Vec<FieldPart>> = Vec::new();
    let mut i: usize = 0;
    assert(body_views(bodies@) =~= Seq::empty());
    while i < members.len()
        invariant
            i <= members@.len(),
            types_measurable(members@, pointer_bytes),
            body_views(bodies@) == member_parts(members@.take(i as int), pointer_bytes),
        decreases members.len() - i,
    {
        assert(members@.take(i as int + 1).drop_last() =~= members@.take(i as int));
        assert(measurable(members@[i as int], pointer_bytes));
        let ghost before = bodies@;
        let mut body: Vec<FieldPart> = Vec::new();
        body.push(
            FieldPart {
                leaves: leaves_of(&members[i], pointer_bytes),
                align: type_alignment(&members[i]),
            },
        );
        assert(part_views(body@) =~= seq![body@[0]@]);
        bodies.push(body);
        assert(body_views(bodies@) =~= body_views(before).push(part_views(bodies@.last()@)));
        i = i + 1;
    }
    assert(members@.take(i as int) =~= members@);
    bodies
}

/// Bytes of a value of a type.
pub fn total_bytes(ty: &ResolvedType, pointer_bytes: u32) -> (bytes: u32)
    requires
        measurable(*ty, pointer_bytes),
    ensures
        bytes == size_of(*ty, pointer_bytes),
{
    bytes_of_leaves(&leaves_of(ty, pointer_bytes), pointer_bytes)
}

/// Whether a value of this type holds nothing at all.
pub fn is_zero_sized(ty: &ResolvedType) -> (r: bool)
    requires
        measurable(*ty, 0),
    ensures
        r == (leaves_spec(*ty, 0).len() == 0),
{
    leaves_of(ty, 0).len() == 0
}

/// Lays out values of some types as fields, in order.
pub fn layout_fields(types: &Vec<ResolvedType>, pack: u32, pointer_bytes: u32) -> (layout:
    FieldLayout)
    requires
        pack >= 1,
        types_measurable(types@, pointer_bytes),
        plan_end(type_parts(types@, pointer_bytes), pack as nat, pointer_bytes) <= u32::MAX,
    ensures
        layout.lays_out(type_parts(types@, pointer_bytes), pack as nat, pointer_bytes),
{
    let parts: Vec<FieldPart> = types_to_parts(types, pointer_bytes);
    layout_parts(&parts, pack, pointer_bytes)
}

/// Lays out the locals of a function as one frame.
pub fn locals_layout(local_types: &Vec<ResolvedType>, pointer_bytes: u32) -> (layout: FieldLayout)
    requires
        types_measurable(local_types@, pointer_bytes),
        plan_end(type_parts(local_types@, pointer_bytes), 1, pointer_bytes) <= u32::MAX,
    ensures
        layout.lays_out(type_parts(local_types@, pointer_bytes), 1, pointer_bytes),
{
    layout_fields(local_types, 1, pointer_bytes)
}

/// Where the fields of a struct lie.
pub fn struct_layout(struct_type: &ResolvedStructType, pointer_bytes: u32) -> (layout: FieldLayout)
    requires
        measurable(ResolvedType::Struct(Rc::new(*struct_type)), pointer_bytes),
    ensures
        layout.lays_out(
            field_parts(struct_type.fields@, pointer_bytes),
            struct_type.layout.pack as nat,
            pointer_bytes,
        ),
{
    proof {
        lemma_struct_size(struct_type, pointer_bytes);
    }
    let parts: Vec<FieldPart> = fields_to_parts(&struct_type.fields, pointer_bytes);
    layout_parts(&parts, struct_type.layout.pack, pointer_bytes)
}

/// Byte offset of one field of a struct.
pub fn field_byte_offset(
    struct_type: &ResolvedStructType,
    field_index: usize,
    pointer_bytes: u32,
) -> (offset: u32)
    requires
        measurable(ResolvedType::Struct(Rc::new(*struct_type)), pointer_bytes),
        field_index < struct_type.fields@.len(),
    ensures
        offset == plan_offset(
            field_parts(struct_type.fields@, pointer_bytes),
            field_index as int,
            struct_type.layout.pack as nat,
            pointer_bytes,
        ),
{
    let layout: FieldLayout = struct_layout(struct_type, pointer_bytes);
    proof {
        lemma_field_parts(struct_type.fields@, pointer_bytes);
    }
    layout.byte_offsets[field_index]
}

/// The values that make up one field, out of the values that make up a
/// struct.
pub fn project_field_access<T: Clone>(
    values: &Vec<T>,
    struct_type: &ResolvedStructType,
    field_index: usize,
    pointer_bytes: u32,
) -> (part: Vec<T>)
    requires
        measurable(ResolvedType::Struct(Rc::new(*struct_type)), pointer_bytes),
        field_index < struct_type.fields@.len(),
        values@.len() == leaves_spec(
            ResolvedType::Struct(Rc::new(*struct_type)),
            pointer_bytes,
        ).len(),
    ensures
        ({
            let start = plan_start(
                field_parts(struct_type.fields@, pointer_bytes),
                field_index as int,
                struct_type.layout.pack as nat,
                pointer_bytes,
            );
            let len = leaves_spec(
                struct_type.fields@[field_index as int].ty,
                pointer_bytes,
            ).len();
            &&& start + len <= values@.len()
            &&& part@.len() == len
            &&& forall|k: int|
                0 <= k < len ==> cloned(values@[start + k], #[trigger] part@[k])
        }),
{
    let layout: FieldLayout = struct_layout(struct_type, pointer_bytes);
    proof {
        let parts = field_parts(struct_type.fields@, pointer_bytes);
        let pack = struct_type.layout.pack as nat;
        lemma_field_parts(struct_type.fields@, pointer_bytes);
        lemma_leaves_grow(parts, field_index as int + 1, pack, pointer_bytes);
        assert(fields_measurable(struct_type.fields@, pointer_bytes));
        assert(measurable(struct_type.fields@[field_index as int].ty, pointer_bytes));
        assert(parts.take(field_index as int + 1).last() == parts[field_index as int]);
    }
    let start: usize = layout.leaf_starts[field_index];
    let len: usize = leaves_of(&struct_type.fields[field_index].ty, pointer_bytes).len();
    let mut part: Vec<T> = Vec::new();
    let mut k: usize = 0;
    while k < len
        invariant
            k <= len,
            start + len <= values.len(),
            part@.len() == k,
            forall|j: int| 0 <= j < k ==> cloned(values@[start + j], #[trigger] part@[j]),
        decreases len - k,
    {
        part.push(values[start + k].clone());
        k = k + 1;
    }
    part
}

proof fn lemma_leaves_grow(parts: Seq<Part>, index: int, pack: nat, pointer_bytes: u32)
    requires
        0 <= index <= parts.len(),
    ensures
        plan_leaves(parts.take(index), pack, pointer_bytes).len() <= plan_leaves(
            parts,
            pack,
            pointer_bytes,
        ).len(),
    decreases parts.len() - index,
{
    if index == parts.len() {
        assert(parts.take(index) =~= parts);
    } else {
        lemma_leaves_grow(parts, index + 1, pack, pointer_bytes);
        assert(parts.take(index + 1).drop_last() =~= parts.take(index));
    }
}

/// One variant of an enum-like type, reduced to what layout and emission
/// need.
#[derive(Debug)]
pub struct EnumVariantView {
    pub tag: NumberValue,
    pub header_values: Rc<Vec<ConstValue>>,
    pub fields: Vec<ResolvedType>,
}

/// The layout-relevant shape shared by named and anonymous enums. An
/// anonymous enum is the degenerate case: a `u32` tag, no header, no shared
/// dynamic fields, and one body field per variant holding that canonical
/// member.
#[derive(Debug)]
pub struct EnumView {
    pub tag_type: ResolvedType,
    pub header: Vec<ResolvedType>,
    pub dynamic_fields: Vec<ResolvedType>,
    pub variants: Vec<EnumVariantView>,
    pub pack: u32,
    pub align: u32,
}

/// The types of some fields.
pub open spec fn field_types(fields: Seq<ResolvedField>) -> Seq<ResolvedType> {
    fields.map_values(|field: ResolvedField| field.ty)
}

/// The bodies of some variants as layout sees them.
pub open spec fn view_bodies(variants: Seq<EnumVariantView>, pointer_bytes: u32) -> Seq<Seq<Part>> {
    variants.map_values(|variant: EnumVariantView| type_parts(variant.fields@, pointer_bytes))
}

impl EnumView {
    /// The tag, header, and shared dynamic fields, in order.
    pub open spec fn prefix_types(&self) -> Seq<ResolvedType> {
        seq![self.tag_type] + self.header@ + self.dynamic_fields@
    }

    /// [`Self::prefix_types`] as layout sees them.
    pub open spec fn prefix(&self, pointer_bytes: u32) -> Seq<Part> {
        type_parts(self.prefix_types(), pointer_bytes)
    }

    /// The bodies of the variants as layout sees them.
    pub open spec fn bodies(&self, pointer_bytes: u32) -> Seq<Seq<Part>> {
        view_bodies(self.variants@, pointer_bytes)
    }

    /// Where the payload starts.
    pub open spec fn payload_at(&self, pointer_bytes: u32) -> nat {
        payload_start(
            self.prefix(pointer_bytes),
            self.bodies(pointer_bytes),
            self.pack as nat,
            pointer_bytes,
        )
    }

    /// Bytes of the payload.
    pub open spec fn payload_size(&self, pointer_bytes: u32) -> nat {
        bodies_max(self.bodies(pointer_bytes), self.pack as nat, pointer_bytes)
    }

    /// Whether every type in this view is measurable and the payload ends
    /// inside 32-bit sizes.
    pub open spec fn fits(&self, pointer_bytes: u32) -> bool {
        &&& self.pack >= 1
        &&& types_measurable(self.prefix_types(), pointer_bytes)
        &&& forall|i: int|
            0 <= i < self.variants@.len() ==> types_measurable(
                #[trigger] self.variants@[i].fields@,
                pointer_bytes,
            )
        &&& self.payload_at(pointer_bytes) + self.payload_size(pointer_bytes) <= u32::MAX
    }

    /// Whether this is the view of the named enum `cell`.
    pub open spec fn shows_named(&self, cell: ResolvedEnumType) -> bool {
        &&& self.tag_type == cell.tag_type
        &&& self.header@ == field_types(cell.header@)
        &&& self.dynamic_fields@ == field_types(cell.dynamic_fields@)
        &&& self.pack == cell.layout.pack
        &&& self.align == cell.layout.align
        &&& self.variants@.len() == cell.variants@.len()
        &&& forall|i: int|
            0 <= i < cell.variants@.len() ==> {
                &&& (#[trigger] self.variants@[i]).tag == cell.variants@[i].tag
                &&& self.variants@[i].header_values == cell.variants@[i].header_values
                &&& self.variants@[i].fields@ == field_types(cell.variants@[i].fields@)
            }
    }

    /// Whether this is the view of the anonymous enum `shape`.
    pub open spec fn shows_anonymous(&self, shape: ResolvedAnonymousEnum) -> bool {
        &&& self.tag_type == ResolvedType::U32
        &&& self.header@.len() == 0
        &&& self.dynamic_fields@.len() == 0
        &&& self.pack == 1
        &&& self.align == 1
        &&& self.variants@.len() == shape.members@.len()
        &&& forall|i: int|
            0 <= i < shape.members@.len() ==> {
                &&& (#[trigger] self.variants@[i]).tag == NumberValue::Unsigned(i as u64)
                &&& self.variants@[i].header_values@.len() == 0
                &&& self.variants@[i].fields@ == seq![shape.members@[i]]
            }
    }

    /// Whether this is the view of the enum-like type `ty`.
    pub open spec fn shows(&self, ty: ResolvedType) -> bool {
        match ty {
            ResolvedType::Enum { cell, .. } => self.shows_named(*cell),
            ResolvedType::AnonymousEnum { shape, .. } => self.shows_anonymous(*shape),
            _ => false,
        }
    }

    /// The view of an enum-like type.
    pub fn of(ty: &ResolvedType) -> (view: Option<Self>)
        ensures
            match view {
                Some(v) => v.shows(*ty),
                None => !(ty is Enum) && !(ty is AnonymousEnum),
            },
    {
        match ty {
            ResolvedType::Enum { cell, .. } => Some(EnumView::of_named(cell)),
            ResolvedType::AnonymousEnum { shape, .. } => Some(EnumView::of_anonymous(shape)),
            _ => None,
        }
    }

    pub fn of_named(enum_type: &ResolvedEnumType) -> (view: Self)
        ensures
            view.shows_named(*enum_type),
    {
        let mut variants: Vec<EnumVariantView> = Vec::new();
        let mut i: usize = 0;
        while i < enum_type.variants.len()
            invariant
                i <= enum_type.variants@.len(),
                variants@.len() == i,
                forall|k: int|
                    0 <= k < i ==> {
                        &&& (#[trigger] variants@[k]).tag == enum_type.variants@[k].tag
                        &&& variants@[k].header_values == enum_type.variants@[k].header_values
                        &&& variants@[k].fields@ == field_types(enum_type.variants@[k].fields@)
                    },
            decreases enum_type.variants.len() - i,
        {
            let variant: &ResolvedEnumVariant = &enum_type.variants[i];
            variants.push(
                EnumVariantView {
                    tag: variant.tag,
                    header_values: share(&variant.header_values),
                    fields: copy_field_types(&variant.fields),
                },
            );
            i = i + 1;
        }
        EnumView {
            tag_type: enum_type.tag_type.clone(),
            header: copy_field_types(&enum_type.header),
            dynamic_fields: copy_field_types(&enum_type.dynamic_fields),
            variants,
            pack: enum_type.layout.pack,
            align: enum_type.layout.align,
        }
    }

    pub fn of_anonymous(shape: &ResolvedAnonymousEnum) -> (view: Self)
        ensures
            view.shows_anonymous(*shape),
    {
        let layout: Layout = Layout::default();
        let mut variants: Vec<EnumVariantView> = Vec::new();
        let mut i: usize = 0;
        while i < shape.members.len()
            invariant
                i <= shape.members@.len(),
                variants@.len() == i,
                forall|k: int|
                    0 <= k < i ==> {
                        &&& (#[trigger] variants@[k]).tag == NumberValue::Unsigned(k as u64)
                        &&& variants@[k].header_values@.len() == 0
                        &&& variants@[k].fields@ == seq![shape.members@[k]]
                    },
            decreases shape.members.len() - i,
        {
            let mut fields: Vec<ResolvedType> = Vec::new();
            fields.push(shape.members[i].clone());
            assert(fields@ =~= seq![shape.members@[i as int]]);
            variants.push(
                EnumVariantView {
                    tag: NumberValue::Unsigned(i as u64),
                    header_values: Rc::new(Vec::new()),
                    fields,
                },
            );
            i = i + 1;
        }
        EnumView {
            tag_type: anonymous_enum_tag_type(),
            header: Vec::new(),
            dynamic_fields: Vec::new(),
            variants,
            pack: layout.pack,
            align: layout.align,
        }
    }
}

/// Fixed by the language: an anonymous enum's tag is the canonical member
/// index in a `u32`.
pub fn anonymous_enum_tag_type() -> (ty: ResolvedType)
    ensures
        ty == ResolvedType::U32,
{
    ResolvedType::U32
}

fn copy_field_types(fields: &Vec<ResolvedField>) -> (types: Vec<ResolvedType>)
    ensures
        types@ == field_types(fields@),
{
    let mut types: Vec<ResolvedType> = Vec::new();
    let mut i: usize = 0;
    while i < fields.len()
        invariant
            i <= fields@.len(),
            types@ =~= field_types(fields@).take(i as int),
        decreases fields.len() - i,
    {
        types.push(fields[i].ty.clone());
        i = i + 1;
    }
    assert(types@ =~= field_types(fields@));
    types
}

fn view_to_bodies(view: &EnumView, pointer_bytes: u32) -> (bodies: Vec<Vec<FieldPart>>)
    requires
        forall|i: int|
            0 <= i < view.variants@.len() ==> types_measurable(
                #[trigger] view.variants@[i].fields@,
                pointer_bytes,
            ),
    ensures
        body_views(bodies@) == view.bodies(pointer_bytes),
{
    let mut bodies: Vec<Vec<FieldPart>> = Vec::new();
    let mut i: usize = 0;
    while i < view.variants.len()
        invariant
            i <= view.variants@.len(),
            forall|k: int|
                0 <= k < view.variants@.len() ==> types_measurable(
                    #[trigger] view.variants@[k].fields@,
                    pointer_bytes,
                ),
            body_views(bodies@) =~= view.bodies(pointer_bytes).take(i as int),
        decreases view.variants.len() - i,
    {
        let ghost before = bodies@;
        assert(types_measurable(view.variants@[i as int].fields@, pointer_bytes));
        bodies.push(types_to_parts(&view.variants[i].fields, pointer_bytes));
        assert(body_views(bodies@) =~= body_views(before).push(part_views(bodies@.last()@)));
        i = i + 1;
    }
    assert(body_views(bodies@) =~= view.bodies(pointer_bytes));
    bodies
}

/// Bytes of an enum's payload: those of its largest body.
pub fn enum_payload_bytes(view: &EnumView, pointer_bytes: u32) -> (bytes: u32)
    requires
        view.fits(pointer_bytes),
    ensures
        bytes == view.payload_size(pointer_bytes),
{
    let bodies: Vec<Vec<FieldPart>> = view_to_bodies(view, pointer_bytes);
    widest_body(&bodies, view.pack, pointer_bytes)
}

/// The strictest alignment any body field asks for.
pub fn enum_payload_alignment(view: &EnumView) -> (align: u32)
    ensures
        forall|pointer_bytes: u32|
            align == bodies_align(#[trigger] view.bodies(pointer_bytes)),
{
    let mut align: u32 = 1;
    let mut i: usize = 0;
    while i < view.variants.len()
        invariant
            i <= view.variants@.len(),
            forall|pointer_bytes: u32|
                align == bodies_align((#[trigger] view.bodies(pointer_bytes)).take(i as int)),
        decreases view.variants.len() - i,
    {
        let ghost before = align;
        let own: u32 = types_alignment(&view.variants[i].fields);
        align = max_of(align, own);
        assert forall|pointer_bytes: u32|
            align == bodies_align((#[trigger] view.bodies(pointer_bytes)).take(i as int + 1)) by {
            let all = view.bodies(pointer_bytes);
            assert(all.take(i as int + 1).drop_last() =~= all.take(i as int));
            lemma_type_parts(view.variants@[i as int].fields@, pointer_bytes);
        }
        i = i + 1;
    }
    assert forall|pointer_bytes: u32|
        align == bodies_align(#[trigger] view.bodies(pointer_bytes)) by {
        assert(view.bodies(pointer_bytes).take(i as int) =~= view.bodies(pointer_bytes));
    }
    align
}

/// Where the tag, header, and shared dynamic fields of an enum lie.
pub fn enum_prefix_layout(view: &EnumView, pointer_bytes: u32) -> (layout: FieldLayout)
    requires
        view.fits(pointer_bytes),
    ensures
        layout.lays_out(view.prefix(pointer_bytes), view.pack as nat, pointer_bytes),
{
    let mut types: Vec<ResolvedType> = Vec::new();
    types.push(view.tag_type.clone());
    push_types(&mut types, &view.header);
    push_types(&mut types, &view.dynamic_fields);
    proof {
        assert(types@ =~= view.prefix_types());
        lemma_placed(
            plan_end(view.prefix(pointer_bytes), view.pack as nat, pointer_bytes),
            bodies_align(view.bodies(pointer_bytes)),
            view.payload_size(pointer_bytes),
            view.pack as nat,
        );
    }
    layout_fields(&types, view.pack, pointer_bytes)
}

fn push_types(types: &mut Vec<ResolvedType>, more: &Vec<ResolvedType>)
    ensures
        final(types)@ == old(types)@ + more@,
{
    let mut k: usize = 0;
    while k < more.len()
        invariant
            k <= more@.len(),
            types@ =~= old(types)@ + more@.take(k as int),
        decreases more.len() - k,
    {
        types.push(more[k].clone());
        k = k + 1;
    }
    assert(more@.take(k as int) =~= more@);
}

/// Bytes of a union: those of its largest member.
pub fn union_bytes(union_type: &ResolvedUnionType, pointer_bytes: u32) -> (bytes: u32)
    requires
        fields_measurable(union_type.fields@, pointer_bytes),
    ensures
        bytes == parts_max(field_parts(union_type.fields@, pointer_bytes), pointer_bytes),
{
    let parts: Vec<FieldPart> = fields_to_parts(&union_type.fields, pointer_bytes);
    proof {
        lemma_union_max(union_type.fields@, pointer_bytes);
    }
    widest_part(&parts, pointer_bytes)
}

proof fn lemma_union_max(fields: Seq<ResolvedField>, pointer_bytes: u32)
    requires
        fields_measurable(fields, pointer_bytes),
    ensures
        parts_max(field_parts(fields, pointer_bytes), pointer_bytes) <= u32::MAX,
    decreases fields.len(),
{
    if fields.len() > 0 {
        let front = fields.drop_last();
        assert(fields_measurable(front, pointer_bytes)) by {
            assert forall|i: int| 0 <= i < front.len() implies measurable(
                #[trigger] front[i].ty,
                pointer_bytes,
            ) by {
                assert(measurable(fields[i].ty, pointer_bytes));
            }
        }
        lemma_union_max(front, pointer_bytes);
        assert(measurable(fields[fields.len() - 1].ty, pointer_bytes));
        assert(field_parts(fields, pointer_bytes).drop_last() =~= field_parts(
            front,
            pointer_bytes,
        ));
    }
}

/// Byte offset of one header field.
pub fn enum_header_offset(view: &EnumView, index: usize, pointer_bytes: u32) -> (offset: u32)
    requires
        view.fits(pointer_bytes),
        index < view.header@.len(),
    ensures
        offset == plan_offset(
            view.prefix(pointer_bytes),
            1 + index,
            view.pack as nat,
            pointer_bytes,
        ),
{
    let layout: FieldLayout = enum_prefix_layout(view, pointer_bytes);
    proof {
        lemma_type_parts(view.prefix_types(), pointer_bytes);
        assert(layout.byte_offsets.len() == view.prefix_types().len());
    }
    layout.byte_offsets[1 + index]
}

/// Byte offset of one shared dynamic field.
pub fn enum_dynamic_field_offset(view: &EnumView, index: usize, pointer_bytes: u32) -> (offset: u32)
    requires
        view.fits(pointer_bytes),
        index < view.dynamic_fields@.len(),
    ensures
        offset == plan_offset(
            view.prefix(pointer_bytes),
            1 + view.header@.len() + index,
            view.pack as nat,
            pointer_bytes,
        ),
{
    let layout: FieldLayout = enum_prefix_layout(view, pointer_bytes);
    proof {
        lemma_type_parts(view.prefix_types(), pointer_bytes);
        assert(layout.byte_offsets.len() == view.prefix_types().len());
    }
    layout.byte_offsets[1 + view.header.len() + index]
}

/// Where the payload of an enum starts.
pub fn enum_payload_offset(view: &EnumView, pointer_bytes: u32) -> (offset: u32)
    requires
        view.fits(pointer_bytes),
    ensures
        offset == view.payload_at(pointer_bytes),
{
    let prefix: FieldLayout = enum_prefix_layout(view, pointer_bytes);
    let payload_size: u32 = enum_payload_bytes(view, pointer_bytes);
    let align: u32 = enum_payload_alignment(view);
    assert(align == bodies_align(view.bodies(pointer_bytes)));
    place_field(prefix.packed_end, align, payload_size, view.pack)
}

/// Byte offset of one field of one variant's body.
pub fn enum_body_field_offset(
    view: &EnumView,
    variant_index: usize,
    field_index: usize,
    pointer_bytes: u32,
) -> (offset: u32)
    requires
        view.fits(pointer_bytes),
        variant_index < view.variants@.len(),
        field_index < view.variants@[variant_index as int].fields@.len(),
    ensures
        offset == view.payload_at(pointer_bytes) + plan_offset(
            type_parts(view.variants@[variant_index as int].fields@, pointer_bytes),
            field_index as int,
            view.pack as nat,
            pointer_bytes,
        ),
        offset <= view.payload_at(pointer_bytes) + view.payload_size(pointer_bytes),
{
    proof {
        let bodies = view.bodies(pointer_bytes);
        let body = type_parts(view.variants@[variant_index as int].fields@, pointer_bytes);
        lemma_bodies_max_grows(
            bodies,
            variant_index as int + 1,
            view.pack as nat,
            pointer_bytes,
        );
        assert(bodies.take(variant_index as int + 1).last() == body);
        lemma_type_parts(view.variants@[variant_index as int].fields@, pointer_bytes);
        lemma_plan_grows(body, field_index as int + 1, view.pack as nat, pointer_bytes);
        assert(types_measurable(view.variants@[variant_index as int].fields@, pointer_bytes));
    }
    let start: u32 = enum_payload_offset(view, pointer_bytes);
    let body: FieldLayout = layout_fields(
        &view.variants[variant_index].fields,
        view.pack,
        pointer_bytes,
    );
    start + body.byte_offsets[field_index]
}

proof fn lemma_parts_of_field_types(fields: Seq<ResolvedField>, pointer_bytes: u32)
    ensures
        type_parts(field_types(fields), pointer_bytes) == field_parts(fields, pointer_bytes),
{
    lemma_field_parts(fields, pointer_bytes);
    lemma_type_parts(field_types(fields), pointer_bytes);
    assert(type_parts(field_types(fields), pointer_bytes) =~= field_parts(fields, pointer_bytes));
}

proof fn lemma_type_parts_concat(
    a: Seq<ResolvedType>,
    b: Seq<ResolvedType>,
    pointer_bytes: u32,
)
    ensures
        type_parts(a + b, pointer_bytes) == type_parts(a, pointer_bytes) + type_parts(
            b,
            pointer_bytes,
        ),
{
    lemma_type_parts(a, pointer_bytes);
    lemma_type_parts(b, pointer_bytes);
    lemma_type_parts(a + b, pointer_bytes);
    assert(type_parts(a + b, pointer_bytes) =~= type_parts(a, pointer_bytes) + type_parts(
        b,
        pointer_bytes,
    ));
}

/// A view lays out as the type it shows: the two enum forms have one
/// representation rule.
pub proof fn law_view_lays_out_its_type(view: &EnumView, ty: &ResolvedType, pointer_bytes: u32)
    requires
        view.shows(*ty),
    ensures
        leaves_spec(*ty, pointer_bytes) == enum_leaves(
            view.prefix(pointer_bytes),
            view.bodies(pointer_bytes),
            view.pack as nat,
            view.align as nat,
            pointer_bytes,
        ),
        align_of(*ty) == enum_align(
            view.prefix(pointer_bytes),
            view.bodies(pointer_bytes),
            view.align as nat,
        ),
{
    let tag = seq![view.tag_type];
    lemma_type_parts_concat(tag + view.header@, view.dynamic_fields@, pointer_bytes);
    lemma_type_parts_concat(tag, view.header@, pointer_bytes);
    lemma_type_parts(tag, pointer_bytes);
    lemma_type_parts(view.prefix_types(), pointer_bytes);
    assert(type_parts(tag, pointer_bytes) =~= seq![
        Part {
            leaves: leaves_spec(view.tag_type, pointer_bytes),
            align: align_of(view.tag_type),
        },
    ]);
    match ty {
        ResolvedType::Enum { cell, .. } => {
            lemma_parts_of_field_types(cell.header@, pointer_bytes);
            lemma_parts_of_field_types(cell.dynamic_fields@, pointer_bytes);
            lemma_variant_parts(cell.variants@, pointer_bytes);
            assert forall|i: int| 0 <= i < cell.variants@.len() implies view.bodies(
                pointer_bytes,
            )[i] == #[trigger] variant_parts(cell.variants@, pointer_bytes)[i] by {
                assert(view.variants@[i].fields@ == field_types(cell.variants@[i].fields@));
                lemma_parts_of_field_types(cell.variants@[i].fields@, pointer_bytes);
            }
            assert(view.bodies(pointer_bytes) =~= variant_parts(cell.variants@, pointer_bytes));
            lemma_prefix_align(
                &cell.tag_type,
                cell.header@,
                cell.dynamic_fields@,
                view.prefix_types(),
            );
        },
        ResolvedType::AnonymousEnum { shape, .. } => {
            lemma_member_parts(shape.members@, pointer_bytes);
            assert(type_parts(view.header@, pointer_bytes) =~= Seq::empty());
            assert(type_parts(view.dynamic_fields@, pointer_bytes) =~= Seq::empty());
            assert(view.prefix(pointer_bytes) =~= seq![anonymous_tag_part()]);
            assert forall|i: int| 0 <= i < shape.members@.len() implies view.bodies(
                pointer_bytes,
            )[i] == #[trigger] member_parts(shape.members@, pointer_bytes)[i] by {
                assert(view.variants@[i].fields@ == seq![shape.members@[i]]);
                lemma_type_parts(seq![shape.members@[i]], pointer_bytes);
                assert(type_parts(seq![shape.members@[i]], pointer_bytes) =~= member_parts(
                    shape.members@,
                    pointer_bytes,
                )[i]);
            }
            assert(view.bodies(pointer_bytes) =~= member_parts(shape.members@, pointer_bytes));
            lemma_types_align_positive(shape.members@);
            assert(seq![anonymous_tag_part()].drop_last() =~= Seq::empty());
            assert(parts_align(Seq::<Part>::empty()) == 1);
        },
        _ => {},
    }
}

proof fn lemma_prefix_align(
    tag: &ResolvedType,
    header: Seq<ResolvedField>,
    dynamic: Seq<ResolvedField>,
    types: Seq<ResolvedType>,
)
    requires
        types == seq![*tag] + field_types(header) + field_types(dynamic),
    ensures
        types_align(types) == larger(
            larger(larger(1, align_of(*tag)), fields_align(header)),
            fields_align(dynamic),
        ),
    decreases header.len() + dynamic.len(),
{
    law_alignment_is_positive(tag);
    if dynamic.len() > 0 {
        let shorter = dynamic.drop_last();
        assert(types.drop_last() =~= seq![*tag] + field_types(header) + field_types(shorter));
        lemma_prefix_align(tag, header, shorter, types.drop_last());
        assert(types.last() == dynamic.last().ty);
    } else if header.len() > 0 {
        let shorter = header.drop_last();
        assert(types.drop_last() =~= seq![*tag] + field_types(shorter) + field_types(dynamic));
        lemma_prefix_align(tag, shorter, dynamic, types.drop_last());
        assert(types.last() == header.last().ty);
        assert(fields_align(dynamic) == 1);
        lemma_fields_align_positive(header);
        lemma_fields_align_positive(shorter);
    } else {
        assert(types.drop_last() =~= Seq::empty());
        assert(types_align(Seq::<ResolvedType>::empty()) == 1);
        assert(types.last() == *tag);
        assert(fields_align(header) == 1 && fields_align(dynamic) == 1);
    }
}

/// A statically known variant never changes a value's layout.
pub proof fn law_refinement_keeps_layout(ty: &ResolvedType, pointer_bytes: u32)
    ensures
        leaves_spec(ty.without_refinement(), pointer_bytes) == leaves_spec(*ty, pointer_bytes),
        align_of(ty.without_refinement()) == align_of(*ty),
{
}

/// Every body field of an anonymous enum starts where the payload starts.
pub proof fn law_anonymous_bodies_start_at_payload(member: Part, pack: nat, pointer_bytes: u32)
    requires
        pack >= 1,
    ensures
        plan_offset(seq![member], 0, pack, pointer_bytes) == 0,
{
    let parts = seq![member];
    assert(parts.take(1) =~= parts);
    assert(parts.drop_last() =~= Seq::empty());
    assert(plan_end(Seq::<Part>::empty(), pack, pointer_bytes) == 0);
    if member.align > 1 {
        assert(0nat % member.align == 0) by (nonlinear_arith)
            requires
                member.align > 1,
        ;
    }
    assert(0nat % pack == 0) by (nonlinear_arith)
        requires
            pack >= 1,
    ;
}

/// A value's size is a multiple of its alignment, so an array's elements stay
/// aligned.
pub proof fn law_size_is_multiple_of_alignment(ty: &ResolvedType, pointer_bytes: u32)
    requires
        parts_measurable(*ty, pointer_bytes),
    ensures
        size_of(*ty, pointer_bytes) % align_of(*ty) == 0,
    decreases ty,
{
    law_alignment_is_positive(ty);
    match ty {
        ResolvedType::Struct(cell) => lemma_struct_size(&**cell, pointer_bytes),
        ResolvedType::Union(cell) => {
            let widest = parts_max(field_parts(cell.fields@, pointer_bytes), pointer_bytes);
            law_chunks_fill(rounded(widest, fields_align(cell.fields@)), pointer_bytes);
            lemma_rounded(widest, fields_align(cell.fields@));
        },
        ResolvedType::Enum { cell, .. } => {
            lemma_named_enum_size(&**cell, pointer_bytes);
        },
        ResolvedType::AnonymousEnum { shape, .. } => {
            let prefix = seq![anonymous_tag_part()];
            let bodies = member_parts(shape.members@, pointer_bytes);
            law_enum_leaves_fill(prefix, bodies, 1, 1, pointer_bytes);
            lemma_member_parts(shape.members@, pointer_bytes);
            assert(prefix.drop_last() =~= Seq::empty());
            assert(parts_align(Seq::<Part>::empty()) == 1);
            assert(parts_align(prefix) == 1);
            lemma_types_align_positive(shape.members@);
            lemma_rounded(
                payload_start(prefix, bodies, 1, pointer_bytes) + bodies_max(
                    bodies,
                    1,
                    pointer_bytes,
                ),
                align_of(*ty),
            );
        },
        ResolvedType::SizedArray(item, size) => {
            law_size_is_multiple_of_alignment(&**item, pointer_bytes);
            lemma_array_size_multiple(&**item, *size, pointer_bytes);
        },
        _ => {
            assert(align_of(*ty) == 1);
            assert(size_of(*ty, pointer_bytes) % 1 == 0);
        },
    }
}

proof fn lemma_array_size_multiple(item: &ResolvedType, length: u32, pointer_bytes: u32)
    requires
        size_of(*item, pointer_bytes) % align_of(*item) == 0,
    ensures
        size_of(ResolvedType::SizedArray(Rc::new(*item), length), pointer_bytes) % align_of(*item)
            == 0,
{
    law_alignment_is_positive(item);
    law_array_size(item, length, pointer_bytes);
    lemma_multiple_of_multiple(size_of(*item, pointer_bytes), align_of(*item), length as nat);
}

proof fn lemma_named_enum_size(cell: &ResolvedEnumType, pointer_bytes: u32)
    requires
        cell.layout.pack >= 1,
    ensures
        ({
            let ty = ResolvedType::Enum { cell: Rc::new(*cell), variant: None };
            size_of(ty, pointer_bytes) % align_of(ty) == 0
        }),
{
    let ty = ResolvedType::Enum { cell: Rc::new(*cell), variant: None };
    let prefix = seq![
        Part {
            leaves: leaves_spec(cell.tag_type, pointer_bytes),
            align: align_of(cell.tag_type),
        },
    ] + field_parts(cell.header@, pointer_bytes) + field_parts(
        cell.dynamic_fields@,
        pointer_bytes,
    );
    let bodies = variant_parts(cell.variants@, pointer_bytes);
    let pack = cell.layout.pack as nat;
    law_enum_leaves_fill(prefix, bodies, pack, cell.layout.align as nat, pointer_bytes);
    let end = payload_start(prefix, bodies, pack, pointer_bytes) + bodies_max(
        bodies,
        pack,
        pointer_bytes,
    );
    lemma_variant_parts(cell.variants@, pointer_bytes);
    lemma_named_prefix_align(cell, pointer_bytes);
    law_alignment_is_positive(&ty);
    lemma_rounded(end, align_of(ty));
}

pub(crate) proof fn lemma_named_prefix_align(cell: &ResolvedEnumType, pointer_bytes: u32)
    ensures
        parts_align(
            seq![
                Part {
                    leaves: leaves_spec(cell.tag_type, pointer_bytes),
                    align: align_of(cell.tag_type),
                },
            ] + field_parts(cell.header@, pointer_bytes) + field_parts(
                cell.dynamic_fields@,
                pointer_bytes,
            ),
        ) == larger(
            larger(larger(1, align_of(cell.tag_type)), fields_align(cell.header@)),
            fields_align(cell.dynamic_fields@),
        ),
{
    let types = seq![cell.tag_type] + field_types(cell.header@) + field_types(
        cell.dynamic_fields@,
    );
    lemma_prefix_align(&cell.tag_type, cell.header@, cell.dynamic_fields@, types);
    lemma_type_parts(types, pointer_bytes);
    lemma_field_parts(cell.header@, pointer_bytes);
    lemma_field_parts(cell.dynamic_fields@, pointer_bytes);
    assert(type_parts(types, pointer_bytes) =~= seq![
        Part {
            leaves: leaves_spec(cell.tag_type, pointer_bytes),
            align: align_of(cell.tag_type),
        },
    ] + field_parts(cell.header@, pointer_bytes) + field_parts(
        cell.dynamic_fields@,
        pointer_bytes,
    ));
}

proof fn lemma_repeated_bytes(leaves: Seq<Leaf>, count: nat, pointer_bytes: u32)
    ensures
        leaf_bytes(repeated(leaves, count), pointer_bytes) == leaf_bytes(leaves, pointer_bytes)
            * count,
    decreases count,
{
    if count > 0 {
        lemma_repeated_bytes(leaves, (count - 1) as nat, pointer_bytes);
        lemma_leaf_bytes_add(repeated(leaves, (count - 1) as nat), leaves, pointer_bytes);
        let one = leaf_bytes(leaves, pointer_bytes);
        assert(one * (count - 1) + one == one * count) by (nonlinear_arith);
    } else {
        assert(leaf_bytes(leaves, pointer_bytes) * 0 == 0);
    }
}

proof fn lemma_multiple_of_multiple(size: nat, align: nat, count: nat)
    requires
        align >= 1,
        size % align == 0,
    ensures
        (size * count) % align == 0,
{
    vstd::arithmetic::div_mod::lemma_fundamental_div_mod(size as int, align as int);
    let q = size as int / align as int;
    assert(size * count == (q * count) * align) by (nonlinear_arith)
        requires
            size == align * q,
    ;
    vstd::arithmetic::div_mod::lemma_mod_multiples_basic(q * count, align as int);
}

/// An array's size is its length times its element's.
pub proof fn law_array_size(item: &ResolvedType, length: u32, pointer_bytes: u32)
    ensures
        size_of(ResolvedType::SizedArray(Rc::new(*item), length), pointer_bytes) == size_of(
            *item,
            pointer_bytes,
        ) * length,
{
    lemma_repeated_bytes(leaves_spec(*item, pointer_bytes), length as nat, pointer_bytes);
}

/// The tag, header, and shared dynamic fields of a named enum as layout sees
/// them.
pub open spec fn named_prefix(cell: ResolvedEnumType, pointer_bytes: u32) -> Seq<Part> {
    seq![
        Part {
            leaves: leaves_spec(cell.tag_type, pointer_bytes),
            align: align_of(cell.tag_type),
        },
    ] + field_parts(cell.header@, pointer_bytes) + field_parts(
        cell.dynamic_fields@,
        pointer_bytes,
    )
}

/// Whether a named enum can be laid out.
pub open spec fn enum_measurable(cell: ResolvedEnumType, pointer_bytes: u32) -> bool {
    measurable(ResolvedType::Enum { cell: Rc::new(cell), variant: None }, pointer_bytes)
}

/// Where a header field of a named enum lies.
pub open spec fn header_at(cell: ResolvedEnumType, index: int, pointer_bytes: u32) -> nat {
    plan_offset(
        named_prefix(cell, pointer_bytes),
        1 + index,
        cell.layout.pack as nat,
        pointer_bytes,
    )
}

/// Where a shared dynamic field of a named enum lies.
pub open spec fn dynamic_at(cell: ResolvedEnumType, index: int, pointer_bytes: u32) -> nat {
    plan_offset(
        named_prefix(cell, pointer_bytes),
        1 + cell.header@.len() + index,
        cell.layout.pack as nat,
        pointer_bytes,
    )
}

/// Where the payload of a named enum starts.
pub open spec fn payload_of(cell: ResolvedEnumType, pointer_bytes: u32) -> nat {
    payload_start(
        named_prefix(cell, pointer_bytes),
        variant_parts(cell.variants@, pointer_bytes),
        cell.layout.pack as nat,
        pointer_bytes,
    )
}

/// Bytes of the payload of a named enum.
pub open spec fn payload_width(cell: ResolvedEnumType, pointer_bytes: u32) -> nat {
    bodies_max(
        variant_parts(cell.variants@, pointer_bytes),
        cell.layout.pack as nat,
        pointer_bytes,
    )
}

/// Where a field of a variant of a named enum lies.
pub open spec fn body_at(
    cell: ResolvedEnumType,
    variant: int,
    index: int,
    pointer_bytes: u32,
) -> nat {
    payload_of(cell, pointer_bytes) + plan_offset(
        field_parts(cell.variants@[variant].fields@, pointer_bytes),
        index,
        cell.layout.pack as nat,
        pointer_bytes,
    )
}

proof fn lemma_named_view(view: &EnumView, cell: &ResolvedEnumType, pointer_bytes: u32)
    requires
        view.shows_named(*cell),
    ensures
        view.prefix(pointer_bytes) == named_prefix(*cell, pointer_bytes),
        view.bodies(pointer_bytes) == variant_parts(cell.variants@, pointer_bytes),
        enum_measurable(*cell, pointer_bytes) ==> view.fits(pointer_bytes),
{
    let tag = seq![view.tag_type];
    lemma_type_parts_concat(tag + view.header@, view.dynamic_fields@, pointer_bytes);
    lemma_type_parts_concat(tag, view.header@, pointer_bytes);
    lemma_type_parts(tag, pointer_bytes);
    assert(type_parts(tag, pointer_bytes) =~= seq![
        Part {
            leaves: leaves_spec(view.tag_type, pointer_bytes),
            align: align_of(view.tag_type),
        },
    ]);
    lemma_parts_of_field_types(cell.header@, pointer_bytes);
    lemma_parts_of_field_types(cell.dynamic_fields@, pointer_bytes);
    lemma_variant_parts(cell.variants@, pointer_bytes);
    assert forall|i: int| 0 <= i < cell.variants@.len() implies view.bodies(pointer_bytes)[i]
        == #[trigger] variant_parts(cell.variants@, pointer_bytes)[i] by {
        assert(view.variants@[i].fields@ == field_types(cell.variants@[i].fields@));
        lemma_parts_of_field_types(cell.variants@[i].fields@, pointer_bytes);
    }
    assert(view.bodies(pointer_bytes) =~= variant_parts(cell.variants@, pointer_bytes));
    if enum_measurable(*cell, pointer_bytes) {
        let prefix = named_prefix(*cell, pointer_bytes);
        let bodies = variant_parts(cell.variants@, pointer_bytes);
        law_enum_leaves_fill(
            prefix,
            bodies,
            cell.layout.pack as nat,
            cell.layout.align as nat,
            pointer_bytes,
        );
        lemma_rounded(
            payload_start(prefix, bodies, cell.layout.pack as nat, pointer_bytes) + bodies_max(
                bodies,
                cell.layout.pack as nat,
                pointer_bytes,
            ),
            enum_align(prefix, bodies, cell.layout.align as nat),
        );
        assert(parts_measurable(
            ResolvedType::Enum { cell: Rc::new(*cell), variant: None },
            pointer_bytes,
        ));
        assert(fields_measurable(cell.header@, pointer_bytes));
        assert(fields_measurable(cell.dynamic_fields@, pointer_bytes));
        assert(variants_measurable(cell.variants@, pointer_bytes));
        assert(types_measurable(view.prefix_types(), pointer_bytes)) by {
            let types = view.prefix_types();
            assert forall|i: int| 0 <= i < types.len() implies measurable(
                #[trigger] types[i],
                pointer_bytes,
            ) by {
                if i == 0 {
                } else if i < 1 + cell.header@.len() {
                    assert(measurable(cell.header@[i - 1].ty, pointer_bytes));
                } else {
                    assert(measurable(
                        cell.dynamic_fields@[i - 1 - cell.header@.len()].ty,
                        pointer_bytes,
                    ));
                }
            }
        }
        assert forall|i: int| 0 <= i < view.variants@.len() implies types_measurable(
            #[trigger] view.variants@[i].fields@,
            pointer_bytes,
        ) by {
            let fields = cell.variants@[i].fields@;
            assert(view.variants@[i].fields@ == field_types(fields));
            assert(fields_measurable(fields, pointer_bytes));
            assert forall|k: int| 0 <= k < fields.len() implies measurable(
                #[trigger] view.variants@[i].fields@[k],
                pointer_bytes,
            ) by {
                assert(measurable(fields[k].ty, pointer_bytes));
            }
        }
    }
}

/// Byte offset of a header field of a named enum.
pub fn named_header_offset(cell: &ResolvedEnumType, index: usize, pointer_bytes: u32) -> (offset:
    u32)
    requires
        enum_measurable(*cell, pointer_bytes),
        index < cell.header@.len(),
    ensures
        offset == header_at(*cell, index as int, pointer_bytes),
{
    let view: EnumView = EnumView::of_named(cell);
    proof {
        lemma_named_view(&view, cell, pointer_bytes);
    }
    enum_header_offset(&view, index, pointer_bytes)
}

/// Byte offset of a shared dynamic field of a named enum.
pub fn named_dynamic_offset(cell: &ResolvedEnumType, index: usize, pointer_bytes: u32) -> (offset:
    u32)
    requires
        enum_measurable(*cell, pointer_bytes),
        index < cell.dynamic_fields@.len(),
    ensures
        offset == dynamic_at(*cell, index as int, pointer_bytes),
{
    let view: EnumView = EnumView::of_named(cell);
    proof {
        lemma_named_view(&view, cell, pointer_bytes);
    }
    enum_dynamic_field_offset(&view, index, pointer_bytes)
}

/// Byte offset of the payload of a named enum.
pub fn named_payload_offset(cell: &ResolvedEnumType, pointer_bytes: u32) -> (offset: u32)
    requires
        enum_measurable(*cell, pointer_bytes),
    ensures
        offset == payload_of(*cell, pointer_bytes),
{
    let view: EnumView = EnumView::of_named(cell);
    proof {
        lemma_named_view(&view, cell, pointer_bytes);
    }
    enum_payload_offset(&view, pointer_bytes)
}

/// Bytes of the payload of a named enum.
pub fn named_payload_bytes(cell: &ResolvedEnumType, pointer_bytes: u32) -> (bytes: u32)
    requires
        enum_measurable(*cell, pointer_bytes),
    ensures
        bytes == payload_width(*cell, pointer_bytes),
{
    let view: EnumView = EnumView::of_named(cell);
    proof {
        lemma_named_view(&view, cell, pointer_bytes);
    }
    enum_payload_bytes(&view, pointer_bytes)
}

/// Byte offset of a field of a variant of a named enum.
pub fn named_body_offset(
    cell: &ResolvedEnumType,
    variant: usize,
    index: usize,
    pointer_bytes: u32,
) -> (offset: u32)
    requires
        enum_measurable(*cell, pointer_bytes),
        variant < cell.variants@.len(),
        index < cell.variants@[variant as int].fields@.len(),
    ensures
        offset == body_at(*cell, variant as int, index as int, pointer_bytes),
{
    let view: EnumView = EnumView::of_named(cell);
    proof {
        lemma_named_view(&view, cell, pointer_bytes);
        assert(view.variants@[variant as int].fields@ == field_types(
            cell.variants@[variant as int].fields@,
        ));
        lemma_parts_of_field_types(cell.variants@[variant as int].fields@, pointer_bytes);
    }
    enum_body_field_offset(&view, variant, index, pointer_bytes)
}

/// Where the leaves of a header field of a named enum start among the enum's
/// leaves.
pub fn named_header_start(cell: &ResolvedEnumType, index: usize, pointer_bytes: u32) -> (start:
    usize)
    requires
        enum_measurable(*cell, pointer_bytes),
        index < cell.header@.len(),
    ensures
        start == plan_start(
            named_prefix(*cell, pointer_bytes),
            1 + index,
            cell.layout.pack as nat,
            pointer_bytes,
        ),
{
    let view: EnumView = EnumView::of_named(cell);
    proof {
        lemma_named_view(&view, cell, pointer_bytes);
        lemma_field_parts(cell.header@, pointer_bytes);
        lemma_field_parts(cell.dynamic_fields@, pointer_bytes);
    }
    let layout: FieldLayout = enum_prefix_layout(&view, pointer_bytes);
    assert(1 + index < layout.leaf_starts.len());
    layout.leaf_starts[1 + index]
}

/// Where the leaves of a shared dynamic field of a named enum start among the
/// enum's leaves.
pub fn named_dynamic_start(cell: &ResolvedEnumType, index: usize, pointer_bytes: u32) -> (start:
    usize)
    requires
        enum_measurable(*cell, pointer_bytes),
        index < cell.dynamic_fields@.len(),
    ensures
        start == plan_start(
            named_prefix(*cell, pointer_bytes),
            1 + cell.header@.len() + index,
            cell.layout.pack as nat,
            pointer_bytes,
        ),
{
    let view: EnumView = EnumView::of_named(cell);
    proof {
        lemma_named_view(&view, cell, pointer_bytes);
        lemma_field_parts(cell.header@, pointer_bytes);
        lemma_field_parts(cell.dynamic_fields@, pointer_bytes);
    }
    let layout: FieldLayout = enum_prefix_layout(&view, pointer_bytes);
    assert(1 + cell.header@.len() + index < layout.leaf_starts.len());
    layout.leaf_starts[1 + cell.header.len() + index]
}

} // verus!
