//! What holds of constant data however it was built: each piece comes after
//! those it holds the addresses of.

use crate::codegen::constants::{
    body_offsets, dynamic_offsets, element_identities, elements_pooled, elements_written,
    fields_written, has_key, header_offsets, identity, key_position, le_bytes, moved, number_bits,
    paired, place_of, pooled, scalar_width, struct_offsets, target_pooled, text_object,
    value_pooled, written, zeros, KeyView, ObjectView, Writing,
};
use crate::layout::size_of;
use crate::resolved_type::{
    ConstValue, ResolvedEnumType, ResolvedField, ResolvedStructType, ResolvedType,
};
use vstd::prelude::*;
use vstd::utf8::encode_utf8;

verus! {

/// Whether addresses are of the first `n` pieces of a pool.
pub open spec fn below(relocs: Seq<(u32, usize)>, n: nat) -> bool {
    forall|i: int| 0 <= i < relocs.len() ==> (#[trigger] relocs[i]).1 < n
}

/// Whether a machine can number the pieces of a pool.
pub open spec fn countable(pool: Seq<ObjectView>) -> bool {
    pool.len() <= usize::MAX
}

/// Whether each piece of a pool comes after those it holds the addresses of.
pub open spec fn orderly(pool: Seq<ObjectView>) -> bool {
    countable(pool) ==> forall|i: int|
        0 <= i < pool.len() ==> below((#[trigger] pool[i]).blob.relocs, i as nat)
}

/// Whether a pool starts with another.
#[verifier::opaque]
pub open spec fn starts_with(pool: Seq<ObjectView>, start: Seq<ObjectView>) -> bool {
    &&& start.len() <= pool.len()
    &&& forall|i: int| 0 <= i < start.len() ==> #[trigger] pool[i] == start[i]
}

/// Whether a pool is orderly and starts with another.
pub open spec fn grew(start: Seq<ObjectView>, pool: Seq<ObjectView>) -> bool {
    starts_with(pool, start) && orderly(pool)
}

pub(crate) proof fn lemma_starts_with_itself(pool: Seq<ObjectView>)
    ensures
        starts_with(pool, pool),
{
    reveal(starts_with);
}

pub(crate) proof fn lemma_starts_with_all(
    a: Seq<ObjectView>,
    b: Seq<ObjectView>,
    c: Seq<ObjectView>,
)
    requires
        starts_with(b, a),
        starts_with(c, b),
    ensures
        starts_with(c, a),
{
    reveal(starts_with);
}

pub(crate) proof fn lemma_starts_with_len(pool: Seq<ObjectView>, start: Seq<ObjectView>)
    requires
        starts_with(pool, start),
    ensures
        start.len() <= pool.len(),
{
    reveal(starts_with);
}

/// Adding a piece whose addresses are of pieces that are there keeps a pool
/// orderly.
proof fn lemma_push(pool: Seq<ObjectView>, object: ObjectView)
    requires
        orderly(pool),
        countable(pool) ==> below(object.blob.relocs, pool.len()),
    ensures
        grew(pool, pool.push(object)),
{
    reveal(starts_with);
    let after = pool.push(object);
    if countable(after) {
        assert forall|i: int| 0 <= i < after.len() implies below(
            (#[trigger] after[i]).blob.relocs,
            i as nat,
        ) by {
            if i < pool.len() {
                assert(below(pool[i].blob.relocs, i as nat));
            }
        }
    }
}

pub(crate) proof fn lemma_pooled(pool: Seq<ObjectView>, text: Seq<char>)
    requires
        orderly(pool),
    ensures
        grew(pool, pooled(pool, text_object(text))),
{
    let object = text_object(text);
    if has_key(pool, object.key) {
        lemma_starts_with_itself(pool);
    } else {
        lemma_push(pool, object);
    }
}

/// A position in a pool is one of its pieces, with the key that was asked for.
pub proof fn law_positions_lead_to_their_key(pool: Seq<ObjectView>, key: KeyView)
    requires
        countable(pool),
        place_of(pool, key) is Some,
    ensures
        place_of(pool, key)->0 < pool.len(),
        pool[place_of(pool, key)->0 as int].key == key,
{
    lemma_position(pool, key, pool.len());
}

proof fn lemma_position(pool: Seq<ObjectView>, key: KeyView, n: nat)
    requires
        countable(pool),
        n <= pool.len(),
    ensures
        match key_position(pool, key, n) {
            Some(index) => index < n && pool[index as int].key == key,
            None => true,
        },
    decreases n,
{
    if n > 0 && pool[n - 1].key != key {
        lemma_position(pool, key, (n - 1) as nat);
    }
}

/// Whether a blob is written into properly: the pool is orderly and holds
/// what the blob's addresses are of.
pub open spec fn proper(w: Writing) -> bool {
    &&& orderly(w.pool)
    &&& countable(w.pool) ==> below(w.blob.relocs, w.pool.len())
}

/// Whether one state of writing follows from another properly.
pub open spec fn advanced(before: Writing, after: Writing) -> bool {
    proper(after) && starts_with(after.pool, before.pool)
}

proof fn lemma_advanced_all(a: Writing, b: Writing, c: Writing)
    requires
        advanced(a, b),
        advanced(b, c),
    ensures
        advanced(a, c),
{
    lemma_starts_with_all(a.pool, b.pool, c.pool);
}

proof fn lemma_put(w: Writing, offset: u32, data: Seq<u8>)
    requires
        proper(w),
        w.put(offset, data) is Some,
    ensures
        advanced(w, w.put(offset, data)->0),
{
    lemma_starts_with_itself(w.pool);
}

proof fn lemma_pointing(w: Writing, pool: Seq<ObjectView>, offset: u32, key: KeyView)
    requires
        proper(w),
        grew(w.pool, pool),
        w.in_pool(pool).pointing(offset, key) is Some,
    ensures
        advanced(w, w.in_pool(pool).pointing(offset, key)->0),
{
    lemma_starts_with_len(pool, w.pool);
    if countable(pool) {
        law_positions_lead_to_their_key(pool, key);
        let after = w.in_pool(pool).pointing(offset, key)->0;
        assert forall|i: int| 0 <= i < after.blob.relocs.len() implies (
        #[trigger] after.blob.relocs[i]).1 < pool.len() by {
            if i < w.blob.relocs.len() {
                assert(after.blob.relocs[i] == w.blob.relocs[i]);
                assert(w.blob.relocs[i].1 < w.pool.len());
            }
        }
    }
}

proof fn lemma_fat_pointer(
    w: Writing,
    pool: Seq<ObjectView>,
    offset: u32,
    key: KeyView,
    length: nat,
    pointer_bytes: u32,
)
    requires
        proper(w),
        grew(w.pool, pool),
        w.in_pool(pool).fat_pointer(offset, key, length, pointer_bytes) is Some,
    ensures
        advanced(w, w.in_pool(pool).fat_pointer(offset, key, length, pointer_bytes)->0),
{
    lemma_pointing(w, pool, offset, key);
    let pointed = w.in_pool(pool).pointing(offset, key)->0;
    let at = moved(offset, pointer_bytes as nat)->0;
    lemma_put(pointed, at, le_bytes(length, 4));
    lemma_advanced_all(w, pointed, pointed.put(at, le_bytes(length, 4))->0);
}

/// Writing a constant keeps the pool orderly and holding what the blob's
/// addresses are of.
pub proof fn law_writing_keeps_the_pool_orderly(
    value: ConstValue,
    ty: &ResolvedType,
    offset: u32,
    w: Writing,
    pointer_bytes: u32,
)
    requires
        proper(w),
        written(value, *ty, offset, w, pointer_bytes) is Some,
    ensures
        advanced(w, written(value, *ty, offset, w, pointer_bytes)->0),
    decreases ty, 0int, 0nat,
{
    match value {
        ConstValue::Number(number) => {
            let width = scalar_width(*ty, pointer_bytes);
            lemma_put(w, offset, le_bytes(number_bits(number, width), width));
        },
        ConstValue::Bool(flag) => {
            lemma_put(
                w,
                offset,
                seq![
                    if flag {
                        1u8
                    } else {
                        0u8
                    },
                ],
            );
        },
        ConstValue::Char(c) => {
            lemma_put(w, offset, le_bytes(c as nat, 4));
        },
        ConstValue::Str(text) => {
            lemma_pooled(w.pool, text@);
            lemma_fat_pointer(
                w,
                pooled(w.pool, text_object(text@)),
                offset,
                KeyView::Text(encode_utf8(text@)),
                encode_utf8(text@).len(),
                pointer_bytes,
            );
        },
        ConstValue::Slice(elements) => match ty {
            ResolvedType::Slice { item, .. } => {
                let item: &ResolvedType = &**item;
                lemma_elements_pooled(elements@, item, w.pool, pointer_bytes);
                lemma_fat_pointer(
                    w,
                    elements_pooled(elements@, *item, w.pool, pointer_bytes)->0,
                    offset,
                    KeyView::Blob(
                        element_identities(elements@, *item, elements@.len(), pointer_bytes),
                    ),
                    elements@.len(),
                    pointer_bytes,
                );
            },
            _ => {},
        },
        ConstValue::Array(elements) => match ty {
            ResolvedType::SizedArray(item, _) => {
                let item: &ResolvedType = &**item;
                lemma_elements_written(
                    elements@,
                    item,
                    offset,
                    elements@.len(),
                    w,
                    pointer_bytes,
                );
            },
            _ => {},
        },
        ConstValue::Struct(fields) => match ty {
            ResolvedType::Struct(cell) => {
                let cell: &ResolvedStructType = &**cell;
                lemma_fields_written(
                    fields@,
                    cell.fields@,
                    struct_offsets(*cell, pointer_bytes),
                    offset,
                    paired(fields@.len(), cell.fields@.len()),
                    w,
                    pointer_bytes,
                );
            },
            _ => {},
        },
        ConstValue::Enum { variant_index, tag, dynamic_fields, fields, .. } => match ty {
            ResolvedType::Enum { cell, .. } => {
                let cell: &ResolvedEnumType = &**cell;
                let variant = cell.variants@[variant_index as int];
                let width = scalar_width(cell.tag_type, pointer_bytes);
                let data = le_bytes(number_bits(tag, width), width);
                lemma_put(w, offset, data);
                let tagged = w.put(offset, data)->0;
                lemma_fields_written(
                    variant.header_values@,
                    cell.header@,
                    header_offsets(*cell, pointer_bytes),
                    offset,
                    paired(variant.header_values@.len(), cell.header@.len()),
                    tagged,
                    pointer_bytes,
                );
                let headed = fields_written(
                    variant.header_values@,
                    cell.header@,
                    header_offsets(*cell, pointer_bytes),
                    offset,
                    paired(variant.header_values@.len(), cell.header@.len()),
                    tagged,
                    pointer_bytes,
                )->0;
                lemma_advanced_all(w, tagged, headed);
                lemma_fields_written(
                    dynamic_fields@,
                    cell.dynamic_fields@,
                    dynamic_offsets(*cell, pointer_bytes),
                    offset,
                    paired(dynamic_fields@.len(), cell.dynamic_fields@.len()),
                    headed,
                    pointer_bytes,
                );
                let shared = fields_written(
                    dynamic_fields@,
                    cell.dynamic_fields@,
                    dynamic_offsets(*cell, pointer_bytes),
                    offset,
                    paired(dynamic_fields@.len(), cell.dynamic_fields@.len()),
                    headed,
                    pointer_bytes,
                )->0;
                lemma_advanced_all(w, headed, shared);
                lemma_fields_written(
                    fields@,
                    variant.fields@,
                    body_offsets(*cell, variant_index as int, pointer_bytes),
                    offset,
                    paired(fields@.len(), variant.fields@.len()),
                    shared,
                    pointer_bytes,
                );
                lemma_advanced_all(
                    w,
                    shared,
                    written(value, *ty, offset, w, pointer_bytes)->0,
                );
            },
            _ => {},
        },
        ConstValue::Union { field_index, value: inner } => match ty {
            ResolvedType::Union(cell) => {
                law_writing_keeps_the_pool_orderly(
                    *inner,
                    &cell.fields@[field_index as int].ty,
                    offset,
                    w,
                    pointer_bytes,
                );
            },
            _ => {},
        },
        ConstValue::Ref(inner) => match ty {
            ResolvedType::Pointer { pointee, .. } => {
                let pointee: &ResolvedType = &**pointee;
                lemma_target_pooled(*inner, pointee, w.pool, pointer_bytes);
                lemma_pointing(
                    w,
                    target_pooled(*inner, *pointee, w.pool, pointer_bytes)->0,
                    offset,
                    KeyView::Blob(identity(value, *ty, pointer_bytes)),
                );
            },
            _ => {},
        },
    }
}

proof fn lemma_elements_written(
    values: Seq<ConstValue>,
    item: &ResolvedType,
    offset: u32,
    n: nat,
    w: Writing,
    pointer_bytes: u32,
)
    requires
        proper(w),
        elements_written(values, *item, offset, n, w, pointer_bytes) is Some,
    ensures
        advanced(w, elements_written(values, *item, offset, n, w, pointer_bytes)->0),
    decreases item, 1int, n,
{
    if n == 0 {
        lemma_starts_with_itself(w.pool);
    } else {
        lemma_elements_written(values, item, offset, (n - 1) as nat, w, pointer_bytes);
        let before = elements_written(values, *item, offset, (n - 1) as nat, w, pointer_bytes)->0;
        let at = moved(
            offset,
            ((n - 1) * size_of(*item, pointer_bytes)) as nat,
        )->0;
        law_writing_keeps_the_pool_orderly(values[n - 1], item, at, before, pointer_bytes);
        lemma_advanced_all(
            w,
            before,
            elements_written(values, *item, offset, n, w, pointer_bytes)->0,
        );
    }
}

proof fn lemma_fields_written(
    values: Seq<ConstValue>,
    fields: Seq<ResolvedField>,
    offsets: Seq<nat>,
    offset: u32,
    n: nat,
    w: Writing,
    pointer_bytes: u32,
)
    requires
        proper(w),
        fields_written(values, fields, offsets, offset, n, w, pointer_bytes) is Some,
    ensures
        advanced(w, fields_written(values, fields, offsets, offset, n, w, pointer_bytes)->0),
    decreases fields, 0int, n,
{
    if n == 0 || n > fields.len() {
        lemma_starts_with_itself(w.pool);
    } else {
        lemma_fields_written(values, fields, offsets, offset, (n - 1) as nat, w, pointer_bytes);
        let before = fields_written(
            values,
            fields,
            offsets,
            offset,
            (n - 1) as nat,
            w,
            pointer_bytes,
        )->0;
        let at = moved(offset, offsets[n - 1])->0;
        law_writing_keeps_the_pool_orderly(
            values[n - 1],
            &fields[n - 1].ty,
            at,
            before,
            pointer_bytes,
        );
        lemma_advanced_all(
            w,
            before,
            fields_written(values, fields, offsets, offset, n, w, pointer_bytes)->0,
        );
    }
}

pub(crate) proof fn lemma_elements_pooled(
    values: Seq<ConstValue>,
    item: &ResolvedType,
    pool: Seq<ObjectView>,
    pointer_bytes: u32,
)
    requires
        orderly(pool),
        elements_pooled(values, *item, pool, pointer_bytes) is Some,
    ensures
        grew(pool, elements_pooled(values, *item, pool, pointer_bytes)->0),
    decreases item, 2int, 0nat,
{
    let key = KeyView::Blob(element_identities(values, *item, values.len(), pointer_bytes));
    if has_key(pool, key) {
        lemma_starts_with_itself(pool);
    } else {
        let total = values.len() * size_of(*item, pointer_bytes);
        let start = Writing { pool, blob: zeros(total as nat) };
        lemma_elements_written(values, item, 0, values.len(), start, pointer_bytes);
        let w = elements_written(values, *item, 0, values.len(), start, pointer_bytes)->0;
        lemma_finish(pool, w, key);
    }
}

/// A finished blob becomes a piece of the pool.
proof fn lemma_finish(pool: Seq<ObjectView>, w: Writing, key: KeyView)
    requires
        proper(w),
        starts_with(w.pool, pool),
    ensures
        grew(pool, w.pool.push(ObjectView { key, blob: w.blob })),
{
    let object = ObjectView { key, blob: w.blob };
    lemma_push(w.pool, object);
    lemma_starts_with_all(pool, w.pool, w.pool.push(object));
}

proof fn lemma_value_pooled(
    value: ConstValue,
    ty: &ResolvedType,
    pool: Seq<ObjectView>,
    pointer_bytes: u32,
)
    requires
        orderly(pool),
        value_pooled(value, *ty, pool, pointer_bytes) is Some,
    ensures
        grew(pool, value_pooled(value, *ty, pool, pointer_bytes)->0),
    decreases ty, 1int, 0nat,
{
    let key = KeyView::Blob(identity(value, *ty, pointer_bytes));
    if has_key(pool, key) {
        lemma_starts_with_itself(pool);
    } else {
        let start = Writing { pool, blob: zeros(size_of(*ty, pointer_bytes)) };
        law_writing_keeps_the_pool_orderly(value, ty, 0, start, pointer_bytes);
        let w = written(value, *ty, 0, start, pointer_bytes)->0;
        lemma_finish(pool, w, key);
    }
}

pub(crate) proof fn lemma_target_pooled(
    inner: ConstValue,
    pointee: &ResolvedType,
    pool: Seq<ObjectView>,
    pointer_bytes: u32,
)
    requires
        orderly(pool),
        target_pooled(inner, *pointee, pool, pointer_bytes) is Some,
    ensures
        grew(pool, target_pooled(inner, *pointee, pool, pointer_bytes)->0),
    decreases pointee, 3int, 0nat,
{
    match inner {
        ConstValue::Array(elements) => {
            lemma_elements_pooled(elements@, pointee, pool, pointer_bytes);
        },
        _ => {
            lemma_value_pooled(inner, pointee, pool, pointer_bytes);
        },
    }
}

} // verus!
