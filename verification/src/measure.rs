//! Whether types can be laid out at all: sizes without leaves, and without a
//! limit that a type could outgrow unnoticed.

use crate::layout::{
    align_of, anonymous_tag_part, bodies_align, bodies_max, enum_align, field_parts, fields_align,
    fields_measurable, law_array_size, law_chunks_fill, law_enum_leaves_fill, leaf_bytes,
    leaves_spec, lemma_bodies_max_grows, lemma_field_parts, lemma_member_parts,
    lemma_named_prefix_align, lemma_placed, lemma_plan_grows, lemma_rounded, lemma_struct_size,
    lemma_type_parts, lemma_types_align_positive, lemma_variant_parts, measurable, member_parts,
    named_prefix, parts_align, parts_max, parts_measurable, payload_start, placed, plan_end,
    rounded, size_of, type_alignment, type_parts, types_align, types_measurable, variant_parts,
    variants_align, variants_measurable, Leaf, Part,
};
use crate::resolved_type::{
    ResolvedAnonymousEnum, ResolvedEnumType, ResolvedEnumVariant, ResolvedField,
    ResolvedStructType, ResolvedType, ResolvedUnionType,
};
use std::rc::Rc;
use vstd::prelude::*;

verus! {

/// The size and the alignment of a field.
#[derive(Debug, Clone, Copy, PartialEq, Eq, Structural)]
pub struct Extent {
    pub size: u32,
    pub align: u32,
}

/// Whether extents are those of some fields.
pub open spec fn extents_of(extents: Seq<Extent>, parts: Seq<Part>, pointer_bytes: u32) -> bool {
    &&& extents.len() == parts.len()
    &&& forall|i: int|
        0 <= i < extents.len() ==> {
            &&& (#[trigger] extents[i]).size == parts[i].size(pointer_bytes)
            &&& extents[i].align == parts[i].align
        }
}

fn round_wide(offset: u64, align: u32) -> (r: u64)
    requires
        offset <= 0xff_ffff_ffff,
    ensures
        r == rounded(offset as nat, align as nat),
        r < offset + align || r == offset,
{
    proof {
        lemma_rounded(offset as nat, align as nat);
    }
    if align <= 1 {
        offset
    } else {
        let over: u64 = offset % align as u64;
        if over == 0 {
            offset
        } else {
            offset + (align as u64 - over)
        }
    }
}

fn place_wide(offset: u64, align: u32, size: u32, pack: u32) -> (r: u64)
    requires
        pack >= 1,
        offset <= 0xffff_ffff,
    ensures
        r == placed(offset as nat, align as nat, size as nat, pack as nat),
        r <= 0x4_ffff_ffff,
{
    let aligned: u64 = round_wide(offset, align);
    let in_chunk: u64 = aligned % pack as u64;
    assert(in_chunk <= aligned) by {
        vstd::arithmetic::div_mod::lemma_mod_decreases(aligned as nat, pack as nat);
    }
    if in_chunk == 0 || in_chunk + size as u64 <= pack as u64 {
        aligned
    } else {
        round_wide(aligned - in_chunk + pack as u64, align)
    }
}

/// Where fields end, if that is within 32 bits.
fn end_of(
    extents: &Vec<Extent>,
    pack: u32,
    Ghost(parts): Ghost<Seq<Part>>,
    pointer_bytes: u32,
) -> (end: Option<u32>)
    requires
        pack >= 1,
        extents_of(extents@, parts, pointer_bytes),
    ensures
        match end {
            Some(end) => end == plan_end(parts, pack as nat, pointer_bytes),
            None => plan_end(parts, pack as nat, pointer_bytes) > u32::MAX,
        },
{
    let mut end: u32 = 0;
    let mut i: usize = 0;
    assert(parts.take(0) =~= Seq::empty());
    while i < extents.len()
        invariant
            i <= extents@.len(),
            pack >= 1,
            extents_of(extents@, parts, pointer_bytes),
            end == plan_end(parts.take(i as int), pack as nat, pointer_bytes),
        decreases extents.len() - i,
    {
        let extent: Extent = extents[i];
        let start: u64 = place_wide(end as u64, extent.align, extent.size, pack);
        let next: u64 = start + extent.size as u64;
        proof {
            assert(parts.take(i + 1).drop_last() =~= parts.take(i as int));
            assert(parts.take(i + 1).last() == parts[i as int]);
            assert(next == plan_end(parts.take(i + 1), pack as nat, pointer_bytes));
        }
        if next > 0xffff_ffff {
            proof {
                lemma_plan_grows(parts, i + 1, pack as nat, pointer_bytes);
            }
            return None;
        }
        end = next as u32;
        i = i + 1;
    }
    assert(parts.take(i as int) =~= parts);
    Some(end)
}

fn measure_fields(fields: &Vec<ResolvedField>, pointer_bytes: u32) -> (found: Option<Vec<Extent>>)
    ensures
        match found {
            Some(extents) => fields_measurable(fields@, pointer_bytes) && extents_of(
                extents@,
                field_parts(fields@, pointer_bytes),
                pointer_bytes,
            ),
            None => !fields_measurable(fields@, pointer_bytes),
        },
    decreases fields, 0int,
{
    let mut extents: Vec<Extent> = Vec::new();
    let mut i: usize = 0;
    proof {
        lemma_field_parts(fields@, pointer_bytes);
    }
    while i < fields.len()
        invariant
            i <= fields@.len(),
            extents@.len() == i,
            field_parts(fields@, pointer_bytes).len() == fields@.len(),
            forall|k: int|
                0 <= k < fields@.len() ==> #[trigger] field_parts(fields@, pointer_bytes)[k]
                    == (Part {
                    leaves: leaves_spec(fields@[k].ty, pointer_bytes),
                    align: align_of(fields@[k].ty),
                }),
            forall|k: int|
                0 <= k < i ==> measurable(#[trigger] fields@[k].ty, pointer_bytes)
                    && extents@[k].size == size_of(fields@[k].ty, pointer_bytes)
                    && extents@[k].align == align_of(fields@[k].ty),
        decreases fields.len() - i,
    {
        match measure(&fields[i].ty, pointer_bytes) {
            Some(size) => {
                extents.push(Extent { size, align: type_alignment(&fields[i].ty) });
            },
            None => {
                assert(!measurable(fields@[i as int].ty, pointer_bytes));
                return None;
            },
        }
        i = i + 1;
    }
    proof {
        let parts = field_parts(fields@, pointer_bytes);
        assert forall|k: int| 0 <= k < extents@.len() implies {
            &&& (#[trigger] extents@[k]).size == parts[k].size(pointer_bytes)
            &&& extents@[k].align == parts[k].align
        } by {
            assert(measurable(fields@[k].ty, pointer_bytes));
            assert(parts[k] == (Part {
                leaves: leaves_spec(fields@[k].ty, pointer_bytes),
                align: align_of(fields@[k].ty),
            }));
        }
    }
    Some(extents)
}

fn measure_union(cell: &ResolvedUnionType, pointer_bytes: u32) -> (found: Option<u32>)
    ensures
        ({
            let ty = ResolvedType::Union(Rc::new(*cell));
            match found {
                Some(size) => measurable(ty, pointer_bytes) && size == size_of(ty, pointer_bytes),
                None => !measurable(ty, pointer_bytes),
            }
        }),
    decreases cell, 0int,
{
    let ghost ty = ResolvedType::Union(Rc::new(*cell));
    let extents: Vec<Extent> = match measure_fields(&cell.fields, pointer_bytes) {
        Some(extents) => extents,
        None => {
            assert(!parts_measurable(ty, pointer_bytes));
            return None;
        },
    };
    let ghost parts = field_parts(cell.fields@, pointer_bytes);
    let mut widest: u32 = 0;
    let mut align: u32 = 1;
    let mut i: usize = 0;
    assert(parts.take(0) =~= Seq::empty());
    while i < extents.len()
        invariant
            i <= extents@.len(),
            extents_of(extents@, parts, pointer_bytes),
            widest == parts_max(parts.take(i as int), pointer_bytes),
            align == parts_align(parts.take(i as int)),
        decreases extents.len() - i,
    {
        let extent: Extent = extents[i];
        assert(parts.take(i + 1).drop_last() =~= parts.take(i as int));
        if widest < extent.size {
            widest = extent.size;
        }
        if align < extent.align {
            align = extent.align;
        }
        i = i + 1;
    }
    let total: u64 = round_wide(widest as u64, align);
    proof {
        assert(parts.take(i as int) =~= parts);
        lemma_field_parts(cell.fields@, pointer_bytes);
        law_chunks_fill(total as nat, pointer_bytes);
        assert(size_of(ty, pointer_bytes) == total);
        assert(parts_measurable(ty, pointer_bytes));
    }
    if total <= 0xffff_ffff {
        Some(total as u32)
    } else {
        None
    }
}

fn measure_struct(cell: &ResolvedStructType, pointer_bytes: u32) -> (found: Option<u32>)
    ensures
        ({
            let ty = ResolvedType::Struct(Rc::new(*cell));
            match found {
                Some(size) => measurable(ty, pointer_bytes) && size == size_of(ty, pointer_bytes),
                None => !measurable(ty, pointer_bytes),
            }
        }),
    decreases cell, 0int,
{
    let ghost ty = ResolvedType::Struct(Rc::new(*cell));
    if cell.layout.pack < 1 {
        assert(!parts_measurable(ty, pointer_bytes));
        return None;
    }
    let extents: Vec<Extent> = match measure_fields(&cell.fields, pointer_bytes) {
        Some(extents) => extents,
        None => {
            assert(!parts_measurable(ty, pointer_bytes));
            return None;
        },
    };
    let ghost parts = field_parts(cell.fields@, pointer_bytes);
    proof {
        lemma_struct_size(cell, pointer_bytes);
        lemma_field_parts(cell.fields@, pointer_bytes);
        assert(parts_measurable(ty, pointer_bytes));
    }
    let end: u32 = match end_of(&extents, cell.layout.pack, Ghost(parts), pointer_bytes) {
        Some(end) => end,
        None => {
            return None;
        },
    };
    let inner: u32 = strictest_extent(&extents, Ghost(parts), pointer_bytes);
    let align: u32 = if inner < cell.layout.align {
        cell.layout.align
    } else {
        inner
    };
    let total: u64 = round_wide(end as u64, align);
    assert(size_of(ty, pointer_bytes) == total);
    if total <= 0xffff_ffff {
        Some(total as u32)
    } else {
        None
    }
}

fn strictest_extent(
    extents: &Vec<Extent>,
    Ghost(parts): Ghost<Seq<Part>>,
    pointer_bytes: u32,
) -> (align: u32)
    requires
        extents_of(extents@, parts, pointer_bytes),
    ensures
        align == parts_align(parts),
{
    let mut align: u32 = 1;
    let mut i: usize = 0;
    assert(parts.take(0) =~= Seq::empty());
    while i < extents.len()
        invariant
            i <= extents@.len(),
            extents_of(extents@, parts, pointer_bytes),
            align == parts_align(parts.take(i as int)),
        decreases extents.len() - i,
    {
        let extent: Extent = extents[i];
        assert(parts.take(i + 1).drop_last() =~= parts.take(i as int));
        if align < extent.align {
            align = extent.align;
        }
        i = i + 1;
    }
    assert(parts.take(i as int) =~= parts);
    align
}

/// The size of the largest body of some variants, if every field can be laid
/// out and it is within 32 bits.
fn measure_variants(variants: &Vec<ResolvedEnumVariant>, pack: u32, pointer_bytes: u32) -> (found:
    Option<u32>)
    requires
        pack >= 1,
    ensures
        match found {
            Some(size) => {
                &&& variants_measurable(variants@, pointer_bytes)
                &&& size == bodies_max(
                    variant_parts(variants@, pointer_bytes),
                    pack as nat,
                    pointer_bytes,
                )
            },
            None => {
                ||| !variants_measurable(variants@, pointer_bytes)
                ||| bodies_max(
                    variant_parts(variants@, pointer_bytes),
                    pack as nat,
                    pointer_bytes,
                ) > u32::MAX
            },
        },
    decreases variants, 0int,
{
    let ghost bodies = variant_parts(variants@, pointer_bytes);
    let mut widest: u32 = 0;
    let mut i: usize = 0;
    proof {
        lemma_variant_parts(variants@, pointer_bytes);
        assert(bodies.take(0) =~= Seq::empty());
    }
    while i < variants.len()
        invariant
            i <= variants@.len(),
            pack >= 1,
            bodies == variant_parts(variants@, pointer_bytes),
            bodies.len() == variants@.len(),
            forall|k: int|
                0 <= k < variants@.len() ==> #[trigger] bodies[k] == field_parts(
                    variants@[k].fields@,
                    pointer_bytes,
                ),
            forall|k: int|
                0 <= k < i ==> fields_measurable(#[trigger] variants@[k].fields@, pointer_bytes),
            widest == bodies_max(bodies.take(i as int), pack as nat, pointer_bytes),
        decreases variants.len() - i,
    {
        let fields: &Vec<ResolvedField> = &variants[i].fields;
        let extents: Vec<Extent> = match measure_fields(fields, pointer_bytes) {
            Some(extents) => extents,
            None => {
                assert(!fields_measurable(variants@[i as int].fields@, pointer_bytes));
                return None;
            },
        };
        let ghost parts = bodies[i as int];
        proof {
            assert(bodies.take(i + 1).drop_last() =~= bodies.take(i as int));
            assert(bodies.take(i + 1).last() == parts);
        }
        match end_of(&extents, pack, Ghost(parts), pointer_bytes) {
            Some(end) => {
                if widest < end {
                    widest = end;
                }
            },
            None => {
                proof {
                    lemma_bodies_max_grows(bodies, i + 1, pack as nat, pointer_bytes);
                }
                return None;
            },
        }
        i = i + 1;
    }
    assert(bodies.take(i as int) =~= bodies);
    Some(widest)
}

/// The size of an enum, from where its prefix ends and its largest body.
fn enum_total(
    prefix_end: u32,
    widest: u32,
    pack: u32,
    bodies_alignment: u32,
    alignment: u32,
) -> (total: Option<u32>)
    requires
        pack >= 1,
    ensures
        ({
            let start = placed(
                prefix_end as nat,
                bodies_alignment as nat,
                widest as nat,
                pack as nat,
            );
            let size = rounded(start + widest as nat, alignment as nat);
            match total {
                Some(total) => total == size,
                None => size > u32::MAX,
            }
        }),
{
    let start: u64 = place_wide(prefix_end as u64, bodies_alignment, widest, pack);
    let total: u64 = round_wide(start + widest as u64, alignment);
    if total <= 0xffff_ffff {
        Some(total as u32)
    } else {
        None
    }
}

fn alignment_of_bodies(variants: &Vec<ResolvedEnumVariant>) -> (align: u32)
    ensures
        align == variants_align(variants@),
{
    let mut align: u32 = 1;
    let mut i: usize = 0;
    assert(variants@.take(0) =~= Seq::empty());
    while i < variants.len()
        invariant
            i <= variants@.len(),
            align == variants_align(variants@.take(i as int)),
        decreases variants.len() - i,
    {
        assert(variants@.take(i + 1).drop_last() =~= variants@.take(i as int));
        let fields: &Vec<ResolvedField> = &variants[i].fields;
        let mut own: u32 = 1;
        let mut k: usize = 0;
        assert(fields@.take(0) =~= Seq::empty());
        while k < fields.len()
            invariant
                k <= fields@.len(),
                own == fields_align(fields@.take(k as int)),
            decreases fields.len() - k,
        {
            assert(fields@.take(k + 1).drop_last() =~= fields@.take(k as int));
            let next: u32 = type_alignment(&fields[k].ty);
            if own < next {
                own = next;
            }
            k = k + 1;
        }
        assert(fields@.take(k as int) =~= fields@);
        if align < own {
            align = own;
        }
        i = i + 1;
    }
    assert(variants@.take(i as int) =~= variants@);
    align
}

fn measure_enum(cell: &ResolvedEnumType, pointer_bytes: u32) -> (found: Option<u32>)
    ensures
        ({
            let ty = ResolvedType::Enum { cell: Rc::new(*cell), variant: None };
            match found {
                Some(size) => measurable(ty, pointer_bytes) && size == size_of(ty, pointer_bytes),
                None => !measurable(ty, pointer_bytes),
            }
        }),
    decreases cell, 0int,
{
    let ghost ty = ResolvedType::Enum { cell: Rc::new(*cell), variant: None };
    let ghost prefix = named_prefix(*cell, pointer_bytes);
    let ghost bodies = variant_parts(cell.variants@, pointer_bytes);
    let pack: u32 = cell.layout.pack;
    if pack < 1 {
        assert(!parts_measurable(ty, pointer_bytes));
        return None;
    }
    let tag: u32 = match measure(&cell.tag_type, pointer_bytes) {
        Some(tag) => tag,
        None => {
            assert(!parts_measurable(ty, pointer_bytes));
            return None;
        },
    };
    let mut extents: Vec<Extent> = Vec::new();
    extents.push(Extent { size: tag, align: type_alignment(&cell.tag_type) });
    match measure_fields(&cell.header, pointer_bytes) {
        Some(mut header) => {
            extents.append(&mut header);
        },
        None => {
            assert(!parts_measurable(ty, pointer_bytes));
            return None;
        },
    }
    match measure_fields(&cell.dynamic_fields, pointer_bytes) {
        Some(mut dynamic) => {
            extents.append(&mut dynamic);
        },
        None => {
            assert(!parts_measurable(ty, pointer_bytes));
            return None;
        },
    }
    assert(extents_of(extents@, prefix, pointer_bytes));
    proof {
        law_enum_leaves_fill(
            prefix,
            bodies,
            pack as nat,
            cell.layout.align as nat,
            pointer_bytes,
        );
        lemma_named_prefix_align(cell, pointer_bytes);
        lemma_variant_parts(cell.variants@, pointer_bytes);
        let start = payload_start(prefix, bodies, pack as nat, pointer_bytes);
        let most = bodies_max(bodies, pack as nat, pointer_bytes);
        lemma_placed(
            plan_end(prefix, pack as nat, pointer_bytes),
            bodies_align(bodies),
            most,
            pack as nat,
        );
        lemma_rounded(start + most, enum_align(prefix, bodies, cell.layout.align as nat));
        assert(align_of(ty) == enum_align(prefix, bodies, cell.layout.align as nat));
        assert(size_of(ty, pointer_bytes) == rounded(start + most, align_of(ty)));
        assert(size_of(ty, pointer_bytes) >= start + most);
        assert(start >= plan_end(prefix, pack as nat, pointer_bytes));
    }
    let prefix_end: u32 = match end_of(&extents, pack, Ghost(prefix), pointer_bytes) {
        Some(end) => end,
        None => {
            return None;
        },
    };
    let widest: u32 = match measure_variants(&cell.variants, pack, pointer_bytes) {
        Some(widest) => widest,
        None => {
            assert(!variants_measurable(cell.variants@, pointer_bytes) ==> !parts_measurable(
                ty,
                pointer_bytes,
            ));
            return None;
        },
    };
    assert(parts_measurable(ty, pointer_bytes));
    let bodies_alignment: u32 = alignment_of_bodies(&cell.variants);
    let outer: u32 = strictest_extent(&extents, Ghost(prefix), pointer_bytes);
    let inner: u32 = if outer < bodies_alignment {
        bodies_alignment
    } else {
        outer
    };
    let align: u32 = if inner < cell.layout.align {
        cell.layout.align
    } else {
        inner
    };
    enum_total(prefix_end, widest, pack, bodies_alignment, align)
}

fn measure_anonymous(shape: &ResolvedAnonymousEnum, pointer_bytes: u32) -> (found: Option<u32>)
    ensures
        ({
            let ty = ResolvedType::AnonymousEnum { shape: Rc::new(*shape), variant: None };
            match found {
                Some(size) => measurable(ty, pointer_bytes) && size == size_of(ty, pointer_bytes),
                None => !measurable(ty, pointer_bytes),
            }
        }),
    decreases shape, 0int,
{
    let ghost ty = ResolvedType::AnonymousEnum { shape: Rc::new(*shape), variant: None };
    let ghost prefix = seq![anonymous_tag_part()];
    let ghost bodies = member_parts(shape.members@, pointer_bytes);
    let members: &Vec<ResolvedType> = &shape.members;
    let mut widest: u32 = 0;
    let mut align: u32 = 1;
    let mut i: usize = 0;
    proof {
        lemma_member_parts(shape.members@, pointer_bytes);
        assert(bodies.take(0) =~= Seq::empty());
        assert(members@.take(0) =~= Seq::empty());
    }
    while i < members.len()
        invariant
            i <= members@.len(),
            members@ == shape.members@,
            ty == (ResolvedType::AnonymousEnum { shape: Rc::new(*shape), variant: None }),
            bodies == member_parts(members@, pointer_bytes),
            bodies.len() == members@.len(),
            forall|k: int|
                0 <= k < members@.len() ==> #[trigger] bodies[k] == seq![
                    Part {
                        leaves: leaves_spec(members@[k], pointer_bytes),
                        align: align_of(members@[k]),
                    },
                ],
            forall|k: int| 0 <= k < i ==> measurable(#[trigger] members@[k], pointer_bytes),
            widest == bodies_max(bodies.take(i as int), 1, pointer_bytes),
            align == types_align(members@.take(i as int)),
        decreases members.len() - i,
    {
        proof {
            assert(bodies.take(i + 1).drop_last() =~= bodies.take(i as int));
            assert(members@.take(i + 1).drop_last() =~= members@.take(i as int));
            let body = bodies[i as int];
            assert(body.drop_last() =~= Seq::empty());
            assert(plan_end(Seq::<Part>::empty(), 1, pointer_bytes) == 0);
            assert(placed(0, body.last().align, body.last().size(pointer_bytes), 1) == 0);
            assert(plan_end(body, 1, pointer_bytes) == size_of(members@[i as int], pointer_bytes));
        }
        match measure(&members[i], pointer_bytes) {
            Some(size) => {
                if widest < size {
                    widest = size;
                }
            },
            None => {
                assert(!types_measurable(members@, pointer_bytes));
                assert(!parts_measurable(ty, pointer_bytes));
                return None;
            },
        }
        let next: u32 = type_alignment(&members[i]);
        if align < next {
            align = next;
        }
        i = i + 1;
    }
    proof {
        assert(bodies.take(i as int) =~= bodies);
        assert(members@.take(i as int) =~= members@);
        lemma_types_align_positive(members@);
        law_enum_leaves_fill(prefix, bodies, 1, 1, pointer_bytes);
        assert(prefix.drop_last() =~= Seq::empty());
        assert(parts_align(Seq::<Part>::empty()) == 1);
        assert(parts_align(prefix) == 1);
        assert(plan_end(Seq::<Part>::empty(), 1, pointer_bytes) == 0);
        assert(anonymous_tag_part().leaves.drop_last() =~= Seq::empty());
        assert(leaf_bytes(Seq::<Leaf>::empty(), pointer_bytes) == 0);
        assert(anonymous_tag_part().size(pointer_bytes) == 4);
        assert(placed(0, 1, 4, 1) == 0);
        assert(plan_end(prefix, 1, pointer_bytes) == 4);
        assert(parts_measurable(ty, pointer_bytes));
    }
    enum_total(4, widest, 1, align, align)
}

/// The size of a type, if the type can be laid out.
pub fn measure(ty: &ResolvedType, pointer_bytes: u32) -> (found: Option<u32>)
    ensures
        match found {
            Some(size) => measurable(*ty, pointer_bytes) && size == size_of(*ty, pointer_bytes),
            None => !measurable(*ty, pointer_bytes),
        },
    decreases ty, 1int,
{
    match ty {
        ResolvedType::Spec(_) => {
            assert(!parts_measurable(*ty, pointer_bytes));
            None
        },
        ResolvedType::Struct(cell) => measure_struct(cell, pointer_bytes),
        ResolvedType::Union(cell) => measure_union(cell, pointer_bytes),
        ResolvedType::Enum { cell, .. } => {
            proof {
                let plain = ResolvedType::Enum { cell: *cell, variant: None };
                assert(leaves_spec(*ty, pointer_bytes) == leaves_spec(plain, pointer_bytes));
                assert(parts_measurable(*ty, pointer_bytes) == parts_measurable(
                    plain,
                    pointer_bytes,
                ));
            }
            measure_enum(cell, pointer_bytes)
        },
        ResolvedType::AnonymousEnum { shape, .. } => {
            proof {
                let plain = ResolvedType::AnonymousEnum { shape: *shape, variant: None };
                assert(leaves_spec(*ty, pointer_bytes) == leaves_spec(plain, pointer_bytes));
                assert(parts_measurable(*ty, pointer_bytes) == parts_measurable(
                    plain,
                    pointer_bytes,
                ));
            }
            measure_anonymous(shape, pointer_bytes)
        },
        ResolvedType::SizedArray(item, count) => match measure(item, pointer_bytes) {
            Some(size) => {
                proof {
                    law_array_size(&**item, *count, pointer_bytes);
                    assert(parts_measurable(*ty, pointer_bytes));
                    assert(size as int * *count as int <= 0xffff_ffff * 0xffff_ffff)
                        by (nonlinear_arith)
                        requires
                            0 <= size <= 0xffff_ffff,
                            0 <= *count <= 0xffff_ffff,
                    ;
                }
                let total: u64 = size as u64 * *count as u64;
                if total <= 0xffff_ffff {
                    Some(total as u32)
                } else {
                    None
                }
            },
            None => {
                assert(!parts_measurable(*ty, pointer_bytes));
                None
            },
        },
        _ => measure_scalar(ty, pointer_bytes),
    }
}

fn measure_scalar(ty: &ResolvedType, pointer_bytes: u32) -> (found: Option<u32>)
    requires
        !(ty is Spec || ty is Struct || ty is Union || ty is Enum || ty is AnonymousEnum
            || ty is SizedArray),
    ensures
        match found {
            Some(size) => measurable(*ty, pointer_bytes) && size == size_of(*ty, pointer_bytes),
            None => !measurable(*ty, pointer_bytes),
        },
{
    let (first, second): (u32, u32) = match ty {
        ResolvedType::Bool | ResolvedType::I8 | ResolvedType::U8 => (1, 0),
        ResolvedType::I16 | ResolvedType::U16 => (2, 0),
        ResolvedType::Char | ResolvedType::I32 | ResolvedType::U32 | ResolvedType::F32 => (4, 0),
        ResolvedType::I64 | ResolvedType::U64 | ResolvedType::F64 => (8, 0),
        ResolvedType::USize | ResolvedType::ISize => (pointer_bytes, 0),
        ResolvedType::Pointer { .. } | ResolvedType::Array(_, _) => (pointer_bytes, 0),
        ResolvedType::Function(_) => (pointer_bytes, 0),
        ResolvedType::Slice { .. } | ResolvedType::Str { .. } => (pointer_bytes, 4),
        ResolvedType::SpecObject { .. } => (pointer_bytes, pointer_bytes),
        _ => (0, 0),
    };
    proof {
        let leaves = leaves_spec(*ty, pointer_bytes);
        assert(parts_measurable(*ty, pointer_bytes));
        assert(leaf_bytes(Seq::<Leaf>::empty(), pointer_bytes) == 0);
        if leaves.len() == 1 {
            assert(leaves.drop_last() =~= Seq::empty());
        } else if leaves.len() == 2 {
            assert(leaves.drop_last().drop_last() =~= Seq::empty());
            assert(leaf_bytes(leaves.drop_last(), pointer_bytes) == leaves[0].size(pointer_bytes));
        }
        assert(size_of(*ty, pointer_bytes) == first + second);
    }
    first.checked_add(second)
}

/// Where values of some types end that lie one behind the other, if that is
/// within 32 bits.
pub fn measure_run(types: &Vec<ResolvedType>, pointer_bytes: u32) -> (end: Option<u32>)
    requires
        types_measurable(types@, pointer_bytes),
    ensures
        match end {
            Some(end) => end == plan_end(type_parts(types@, pointer_bytes), 1, pointer_bytes),
            None => plan_end(type_parts(types@, pointer_bytes), 1, pointer_bytes) > u32::MAX,
        },
{
    let ghost parts = type_parts(types@, pointer_bytes);
    let mut extents: Vec<Extent> = Vec::new();
    let mut i: usize = 0;
    proof {
        lemma_type_parts(types@, pointer_bytes);
    }
    while i < types.len()
        invariant
            i <= types@.len(),
            types_measurable(types@, pointer_bytes),
            parts.len() == types@.len(),
            forall|k: int|
                0 <= k < types@.len() ==> #[trigger] parts[k] == (Part {
                    leaves: leaves_spec(types@[k], pointer_bytes),
                    align: align_of(types@[k]),
                }),
            extents_of(extents@, parts.take(i as int), pointer_bytes),
        decreases types.len() - i,
    {
        assert(measurable(types@[i as int], pointer_bytes));
        let size: u32 = match measure(&types[i], pointer_bytes) {
            Some(size) => size,
            None => {
                return None;
            },
        };
        assert(parts[i as int].size(pointer_bytes) == size);
        extents.push(Extent { size, align: type_alignment(&types[i]) });
        i = i + 1;
    }
    assert(parts.take(i as int) =~= parts);
    end_of(&extents, 1, Ghost(parts), pointer_bytes)
}

} // verus!
