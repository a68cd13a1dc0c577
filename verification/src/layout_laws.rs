//! How much room types take, and what they ask of their address.

use crate::codegen::cranelift::leaf_ir;
use crate::codegen::llvm::leaf_type;
use crate::codegen::machine::kind_of;
use crate::layout::{
    align_of, field_parts, fields_align, law_plan_fills, leaf_bytes, leaves_spec, lemma_field_parts,
    lemma_leaf_bytes_add, plan_leaves, plan_offset, plan_start, size_of, variants_align, Leaf, Part,
};
use crate::resolved_type::{ResolvedEnumVariant, ResolvedField, ResolvedStructType, ResolvedType};
use std::rc::Rc;
use vstd::prelude::*;

verus! {

/// A number takes as many bytes as it has bits for; a pointer takes what an
/// address does; and what holds a length or a table beside a pointer takes
/// room for both.
pub proof fn law_scalars_take_their_bits(ty: ResolvedType, pointer_bytes: u32)
    requires
        pointer_bytes == 2 || pointer_bytes == 4 || pointer_bytes == 8,
    ensures
        kind_of(ty, (8 * pointer_bytes) as u32) matches Some(kind) ==> 8 * size_of(
            ty,
            pointer_bytes,
        ) == kind.width(),
        ty is Pointer || ty is Array || ty is Function ==> size_of(ty, pointer_bytes)
            == pointer_bytes,
        ty is Slice || ty is Str ==> size_of(ty, pointer_bytes) == pointer_bytes + 4,
        ty is SpecObject ==> size_of(ty, pointer_bytes) == 2 * pointer_bytes,
        ty is Void || ty is Never ==> size_of(ty, pointer_bytes) == 0,
{
    reveal_with_fuel(leaf_bytes, 3);
    let leaves = leaves_spec(ty, pointer_bytes);
    if leaves.len() == 1 {
        assert(leaves.drop_last() =~= Seq::<Leaf>::empty());
    } else if leaves.len() == 2 {
        assert(leaves.drop_last().drop_last() =~= Seq::<Leaf>::empty());
    }
}

/// What either backend makes of a leaf is as wide as the leaf.
pub proof fn law_leaves_keep_their_width(leaf: Leaf, pointer_bytes: u32)
    requires
        pointer_bytes == 2 || pointer_bytes == 4 || pointer_bytes == 8,
    ensures
        leaf_ir(leaf, pointer_bytes).width() == leaf.size(pointer_bytes),
        leaf_type(leaf, pointer_bytes).width(pointer_bytes) == leaf.size(pointer_bytes),
{
}

proof fn lemma_fields(fields: Seq<ResolvedField>)
    ensures
        fields_align(fields) >= 1,
        forall|i: int|
            0 <= i < fields.len() ==> align_of((#[trigger] fields[i]).ty) <= fields_align(fields),
        fields_align(fields) == 1 || exists|i: int|
            0 <= i < fields.len() && align_of((#[trigger] fields[i]).ty) == fields_align(fields),
    decreases fields.len(),
{
    if fields.len() > 0 {
        let front = fields.drop_last();
        lemma_fields(front);
        assert forall|i: int| 0 <= i < fields.len() implies align_of((#[trigger] fields[i]).ty)
            <= fields_align(fields) by {
            if i < front.len() {
                assert(front[i] == fields[i]);
            }
        }
        if fields_align(fields) != 1 {
            if fields_align(fields) == align_of(fields.last().ty) {
                assert(align_of(fields[fields.len() - 1].ty) == fields_align(fields));
            } else {
                let i = choose|i: int|
                    0 <= i < front.len() && align_of((#[trigger] front[i]).ty) == fields_align(
                        front,
                    );
                assert(align_of(fields[i].ty) == fields_align(fields));
            }
        }
    }
}

/// A struct asks as much of its address as it is declared to and as any of its
/// fields does, and no more than the strictest of these.
pub proof fn law_structs_are_aligned_for_their_fields(ty: ResolvedType)
    requires
        ty is Struct,
    ensures
        ty matches ResolvedType::Struct(cell) && {
            &&& cell.layout.align <= align_of(ty)
            &&& forall|i: int|
                0 <= i < cell.fields@.len() ==> align_of((#[trigger] cell.fields@[i]).ty)
                    <= align_of(ty)
            &&& align_of(ty) == 1 || align_of(ty) == cell.layout.align || exists|i: int|
                0 <= i < cell.fields@.len() && align_of((#[trigger] cell.fields@[i]).ty)
                    == align_of(ty)
        },
{
    if let ResolvedType::Struct(cell) = ty {
        lemma_fields(cell.fields@);
    }
}

/// A union asks as much of its address as the strictest of its fields.
pub proof fn law_unions_are_aligned_for_their_fields(ty: ResolvedType)
    requires
        ty is Union,
    ensures
        ty matches ResolvedType::Union(cell) && {
            &&& forall|i: int|
                0 <= i < cell.fields@.len() ==> align_of((#[trigger] cell.fields@[i]).ty)
                    <= align_of(ty)
            &&& align_of(ty) == 1 || exists|i: int|
                0 <= i < cell.fields@.len() && align_of((#[trigger] cell.fields@[i]).ty)
                    == align_of(ty)
        },
{
    if let ResolvedType::Union(cell) = ty {
        lemma_fields(cell.fields@);
    }
}

proof fn lemma_variants(variants: Seq<ResolvedEnumVariant>, v: int, i: int)
    requires
        0 <= v < variants.len(),
        0 <= i < variants[v].fields@.len(),
    ensures
        align_of(variants[v].fields@[i].ty) <= variants_align(variants),
    decreases variants.len(),
{
    lemma_fields(variants.last().fields@);
    if v < variants.len() - 1 {
        lemma_variants(variants.drop_last(), v, i);
    } else {
        assert(align_of(variants[v].fields@[i].ty) <= fields_align(variants.last().fields@));
    }
}

/// An enum asks as much of its address as it is declared to, as its tag does,
/// as what all variants share does, and as any field of any variant does.
pub proof fn law_enums_are_aligned_for_what_they_hold(ty: ResolvedType, v: int, i: int)
    requires
        ty is Enum,
    ensures
        ty matches ResolvedType::Enum { cell, .. } && {
            &&& cell.layout.align <= align_of(ty)
            &&& align_of(cell.tag_type) <= align_of(ty)
            &&& 0 <= i < cell.header@.len() ==> align_of(cell.header@[i].ty) <= align_of(ty)
            &&& 0 <= i < cell.dynamic_fields@.len() ==> align_of(cell.dynamic_fields@[i].ty)
                <= align_of(ty)
            &&& 0 <= v < cell.variants@.len() && 0 <= i < cell.variants@[v].fields@.len()
                ==> align_of(cell.variants@[v].fields@[i].ty) <= align_of(ty)
        },
{
    if let ResolvedType::Enum { cell, .. } = ty {
        lemma_fields(cell.header@);
        lemma_fields(cell.dynamic_fields@);
        if 0 <= v < cell.variants@.len() && 0 <= i < cell.variants@[v].fields@.len() {
            lemma_variants(cell.variants@, v, i);
        }
    }
}

proof fn lemma_leaves_begin(parts: Seq<Part>, n: int, pack: nat, pointer_bytes: u32)
    requires
        0 <= n <= parts.len(),
    ensures
        ({
            let front = plan_leaves(parts.take(n), pack, pointer_bytes);
            let leaves = plan_leaves(parts, pack, pointer_bytes);
            front.len() <= leaves.len() && leaves.take(front.len() as int) == front
        }),
    decreases parts.len(),
{
    let front = plan_leaves(parts.take(n), pack, pointer_bytes);
    let leaves = plan_leaves(parts, pack, pointer_bytes);
    if n < parts.len() {
        lemma_leaves_begin(parts.drop_last(), n, pack, pointer_bytes);
        assert(parts.drop_last().take(n) =~= parts.take(n));
        let before = plan_leaves(parts.drop_last(), pack, pointer_bytes);
        assert(leaves.take(front.len() as int) =~= before.take(front.len() as int));
    } else {
        assert(parts.take(n) =~= parts);
        assert(leaves.take(front.len() as int) =~= front);
    }
}

/// The leaves of a field stand among those of the whole where its bytes lie:
/// those before them take as many bytes as the field lies along.
pub proof fn law_fields_stand_where_they_lie(
    parts: Seq<Part>,
    i: int,
    pack: nat,
    pointer_bytes: u32,
)
    requires
        pack >= 1,
        0 <= i < parts.len(),
    ensures
        ({
            let leaves = plan_leaves(parts, pack, pointer_bytes);
            let start = plan_start(parts, i, pack, pointer_bytes) as int;
            let own = parts[i].leaves;
            &&& start + own.len() <= leaves.len()
            &&& leaves.subrange(start, start + own.len()) == own
            &&& leaf_bytes(leaves.take(start), pointer_bytes) == plan_offset(
                parts,
                i,
                pack,
                pointer_bytes,
            )
        }),
{
    let leaves = plan_leaves(parts, pack, pointer_bytes);
    let upto = parts.take(i + 1);
    let own = parts[i].leaves;
    let front = plan_leaves(upto, pack, pointer_bytes);
    let start = front.len() - own.len();
    lemma_leaves_begin(parts, i + 1, pack, pointer_bytes);
    law_plan_fills(upto, pack, pointer_bytes);
    assert(upto.last() == parts[i]);
    assert(front.subrange(start, front.len() as int) =~= own);
    assert(front.take(start) + own =~= front);
    lemma_leaf_bytes_add(front.take(start), own, pointer_bytes);
    assert(leaves.take(start) =~= front.take(start)) by {
        assert forall|k: int| 0 <= k < start implies leaves.take(start)[k] == front.take(
            start,
        )[k] by {
            assert(leaves.take(front.len() as int)[k] == leaves[k]);
        }
    }
    assert(leaves.subrange(start, start + own.len()) =~= front.subrange(
        start,
        front.len() as int,
    )) by {
        assert forall|k: int| 0 <= k < own.len() implies leaves.subrange(
            start,
            start + own.len(),
        )[k] == front.subrange(start, front.len() as int)[k] by {
            assert(leaves.take(front.len() as int)[start + k] == leaves[start + k]);
        }
    }
}

/// A field of a struct is the same whether the struct is in values or in
/// memory: its values are those whose leaves lie where the field does.
pub proof fn law_fields_of_structs_stand_where_they_lie(
    ty: ResolvedType,
    cell: Rc<ResolvedStructType>,
    i: int,
    pointer_bytes: u32,
)
    requires
        ty == ResolvedType::Struct(cell),
        cell.layout.pack >= 1,
        0 <= i < cell.fields@.len(),
    ensures
        ({
            let leaves = leaves_spec(ty, pointer_bytes);
            let parts = field_parts(cell.fields@, pointer_bytes);
            let pack = cell.layout.pack as nat;
            let start = plan_start(parts, i, pack, pointer_bytes) as int;
            let own = leaves_spec(cell.fields@[i].ty, pointer_bytes);
            &&& start + own.len() <= leaves.len()
            &&& leaves.subrange(start, start + own.len()) == own
            &&& leaf_bytes(leaves.take(start), pointer_bytes) == plan_offset(
                parts,
                i,
                pack,
                pointer_bytes,
            )
        }),
{
    let parts = field_parts(cell.fields@, pointer_bytes);
    let pack = cell.layout.pack as nat;
    lemma_field_parts(cell.fields@, pointer_bytes);
    law_fields_stand_where_they_lie(parts, i, pack, pointer_bytes);
    let inner = plan_leaves(parts, pack, pointer_bytes);
    let leaves = leaves_spec(ty, pointer_bytes);
    let start = plan_start(parts, i, pack, pointer_bytes) as int;
    let own = leaves_spec(cell.fields@[i].ty, pointer_bytes);
    assert(parts[i].leaves == own);
    assert(leaves.take(inner.len() as int) =~= inner);
    assert(leaves.take(start) =~= inner.take(start));
    assert(leaves.subrange(start, start + own.len()) =~= inner.subrange(
        start,
        start + own.len(),
    ));
}

} // verus!
