//! What writing a constant promises: it touches only the bytes its type has,
//! so what one part of a constant was given, no other part takes away.

use crate::codegen::constants::{
    body_offsets, dynamic_offsets, element_identities, elements_pooled, elements_written,
    fields_written, header_offsets, le_bytes, moved, number_bits, paired, pooled, scalar_width,
    struct_offsets, text_object, written, KeyView, Writing,
};
use crate::layout::{
    bodies_align, body_at, dynamic_at, enum_align, field_parts, fields_align, fields_measurable,
    header_at, law_array_size, law_chunks_fill, law_enum_leaves_fill, law_fields_do_not_overlap,
    leaf_bytes, leaves_spec, lemma_bodies_max_grows, lemma_field_parts, lemma_leaf_bytes_add,
    lemma_parts_max_grows, lemma_placed, lemma_plan_grows, lemma_rounded, lemma_struct_size,
    lemma_variant_parts, measurable, named_prefix, parts_max, parts_measurable, payload_of,
    payload_width, plan_end, plan_offset, rounded, size_of, variant_parts, variants_measurable,
    Leaf, Part,
};
use crate::resolved_type::{
    ConstValue, ResolvedEnumType, ResolvedField, ResolvedStructType, ResolvedType,
};
use std::rc::Rc;
use vstd::prelude::*;
use vstd::utf8::encode_utf8;

verus! {

/// Whether a constant is one of a type.
pub open spec fn constant_of(value: ConstValue, ty: ResolvedType, pointer_bytes: u32) -> bool
    decreases ty, 0int,
{
    match value {
        ConstValue::Number(_) => leaves_spec(ty, pointer_bytes).len() > 0,
        ConstValue::Bool(_) => ty is Bool,
        ConstValue::Char(_) => ty is Char,
        ConstValue::Str(_) => ty is Str,
        ConstValue::Slice(_) => ty is Slice,
        ConstValue::Array(elements) => match ty {
            ResolvedType::SizedArray(item, size) => elements@.len() <= size && forall|i: int|
                0 <= i < elements@.len() ==> constant_of(
                    #[trigger] elements@[i],
                    *item,
                    pointer_bytes,
                ),
            _ => false,
        },
        ConstValue::Struct(fields) => match ty {
            ResolvedType::Struct(cell) => constants_of(fields@, cell.fields@, pointer_bytes),
            _ => false,
        },
        ConstValue::Enum { variant_index, dynamic_fields, fields, .. } => match ty {
            ResolvedType::Enum { cell, .. } => {
                &&& leaves_spec(cell.tag_type, pointer_bytes).len() > 0
                &&& variant_index < cell.variants@.len()
                &&& constants_of(
                    cell.variants@[variant_index as int].header_values@,
                    cell.header@,
                    pointer_bytes,
                )
                &&& constants_of(dynamic_fields@, cell.dynamic_fields@, pointer_bytes)
                &&& constants_of(
                    fields@,
                    cell.variants@[variant_index as int].fields@,
                    pointer_bytes,
                )
            },
            _ => false,
        },
        ConstValue::Union { field_index, value } => match ty {
            ResolvedType::Union(cell) => field_index < cell.fields@.len() && constant_of(
                *value,
                cell.fields@[field_index as int].ty,
                pointer_bytes,
            ),
            _ => false,
        },
        ConstValue::Ref(_) => ty is Pointer,
    }
}

/// [`constant_of`] for the values of fields.
pub open spec fn constants_of(
    values: Seq<ConstValue>,
    fields: Seq<ResolvedField>,
    pointer_bytes: u32,
) -> bool
    decreases fields, 0int,
{
    forall|i: int|
        0 <= i < values.len() && i < fields.len() ==> constant_of(
            #[trigger] values[i],
            fields[i].ty,
            pointer_bytes,
        )
}

/// Whether writing touched nothing but the bytes from one position to another,
/// and filled in addresses only there.
#[verifier::opaque]
pub open spec fn inside(a: Writing, b: Writing, from: int, to: int, pointer_bytes: u32) -> bool {
    &&& b.blob.bytes.len() == a.blob.bytes.len()
    &&& forall|k: int|
        0 <= k < a.blob.bytes.len() && !(from <= k < to) ==> #[trigger] b.blob.bytes[k]
            == a.blob.bytes[k]
    &&& a.blob.relocs.len() <= b.blob.relocs.len()
    &&& forall|k: int|
        0 <= k < a.blob.relocs.len() ==> #[trigger] b.blob.relocs[k] == a.blob.relocs[k]
    &&& forall|k: int|
        a.blob.relocs.len() <= k < b.blob.relocs.len() ==> from <= (
        #[trigger] b.blob.relocs[k]).0 && b.blob.relocs[k].0 + pointer_bytes <= to
}

proof fn lemma_inside_then(
    a: Writing,
    b: Writing,
    c: Writing,
    from: int,
    to: int,
    pointer_bytes: u32,
)
    requires
        inside(a, b, from, to, pointer_bytes),
        inside(b, c, from, to, pointer_bytes),
    ensures
        inside(a, c, from, to, pointer_bytes),
{
    reveal(inside);
    assert forall|k: int| 0 <= k < a.blob.bytes.len() && !(from <= k < to) implies
        #[trigger] c.blob.bytes[k] == a.blob.bytes[k] by {
        assert(b.blob.bytes[k] == a.blob.bytes[k]);
    }
    assert forall|k: int| 0 <= k < a.blob.relocs.len() implies #[trigger] c.blob.relocs[k]
        == a.blob.relocs[k] by {
        assert(b.blob.relocs[k] == a.blob.relocs[k]);
    }
    assert forall|k: int| a.blob.relocs.len() <= k < c.blob.relocs.len() implies from <= (
    #[trigger] c.blob.relocs[k]).0 && c.blob.relocs[k].0 + pointer_bytes <= to by {
        if k < b.blob.relocs.len() {
            assert(c.blob.relocs[k] == b.blob.relocs[k]);
        }
    }
}

proof fn lemma_inside_wider(
    a: Writing,
    b: Writing,
    from: int,
    to: int,
    start: int,
    end: int,
    pointer_bytes: u32,
)
    requires
        inside(a, b, from, to, pointer_bytes),
        start <= from,
        to <= end,
    ensures
        inside(a, b, start, end, pointer_bytes),
{
    reveal(inside);
}

proof fn lemma_le_bytes(n: nat, count: nat)
    ensures
        le_bytes(n, count).len() == count,
    decreases count,
{
    if count > 0 {
        lemma_le_bytes(n / 256, (count - 1) as nat);
    }
}

proof fn lemma_first_leaf(leaves: Seq<Leaf>, pointer_bytes: u32)
    requires
        leaves.len() > 0,
    ensures
        leaves[0].size(pointer_bytes) <= leaf_bytes(leaves, pointer_bytes),
{
    let first = leaves.take(1);
    let rest = leaves.skip(1);
    lemma_leaf_bytes_add(first, rest, pointer_bytes);
    assert(first + rest =~= leaves);
    assert(first.drop_last() =~= Seq::empty());
    assert(leaf_bytes(first.drop_last(), pointer_bytes) == 0);
    assert(first.last() == leaves[0]);
}

proof fn lemma_put(w: Writing, offset: u32, data: Seq<u8>, to: int, pointer_bytes: u32)
    requires
        w.put(offset, data) is Some,
        offset + data.len() <= to,
    ensures
        inside(w, w.put(offset, data)->0, offset as int, to, pointer_bytes),
{
    reveal(inside);
}

proof fn lemma_two_leaves(a: Leaf, b: Leaf, pointer_bytes: u32)
    ensures
        leaf_bytes(seq![a, b], pointer_bytes) == a.size(pointer_bytes) + b.size(pointer_bytes),
{
    assert(seq![a, b].drop_last() =~= seq![a]);
    assert(seq![a].drop_last() =~= Seq::empty());
    assert(leaf_bytes(Seq::<Leaf>::empty(), pointer_bytes) == 0);
    assert(leaf_bytes(seq![a], pointer_bytes) == a.size(pointer_bytes));
}

proof fn lemma_one_leaf(a: Leaf, pointer_bytes: u32)
    ensures
        leaf_bytes(seq![a], pointer_bytes) == a.size(pointer_bytes),
{
    assert(seq![a].drop_last() =~= Seq::empty());
    assert(leaf_bytes(Seq::<Leaf>::empty(), pointer_bytes) == 0);
}

proof fn lemma_fat_pointer(
    w: Writing,
    offset: u32,
    key: KeyView,
    length: nat,
    pointer_bytes: u32,
)
    requires
        w.fat_pointer(offset, key, length, pointer_bytes) is Some,
    ensures
        inside(
            w,
            w.fat_pointer(offset, key, length, pointer_bytes)->0,
            offset as int,
            offset + pointer_bytes + 4,
            pointer_bytes,
        ),
{
    reveal(inside);
    lemma_le_bytes(length, 4);
}

/// Writing a constant touches only the bytes that a value of its type has, and
/// fills in addresses only there.
pub proof fn law_writing_stays_inside(
    value: ConstValue,
    ty: &ResolvedType,
    offset: u32,
    w: Writing,
    pointer_bytes: u32,
)
    requires
        measurable(*ty, pointer_bytes),
        constant_of(value, *ty, pointer_bytes),
        written(value, *ty, offset, w, pointer_bytes) is Some,
    ensures
        inside(
            w,
            written(value, *ty, offset, w, pointer_bytes)->0,
            offset as int,
            offset + size_of(*ty, pointer_bytes),
            pointer_bytes,
        ),
    decreases ty, 1int, 0nat,
{
    match value {
        ConstValue::Array(_) => {
            lemma_array_inside(value, ty, offset, w, pointer_bytes);
        },
        ConstValue::Struct(values) => match ty {
            ResolvedType::Struct(cell) => {
                let cell: &ResolvedStructType = &**cell;
                assert(parts_measurable(*ty, pointer_bytes));
                lemma_struct_places(cell, pointer_bytes);
                lemma_fields_inside(
                    values@,
                    cell.fields@,
                    struct_offsets(*cell, pointer_bytes),
                    offset,
                    paired(values@.len(), cell.fields@.len()),
                    w,
                    0,
                    size_of(*ty, pointer_bytes),
                    pointer_bytes,
                );
            },
            _ => {},
        },
        ConstValue::Enum { .. } => {
            lemma_any_variant_inside(value, ty, offset, w, pointer_bytes);
        },
        ConstValue::Union { .. } => {
            lemma_union_inside(value, ty, offset, w, pointer_bytes);
        },
        _ => {
            lemma_scalar_inside(value, ty, offset, w, pointer_bytes);
        },
    }
}

proof fn lemma_scalar_inside(
    value: ConstValue,
    ty: &ResolvedType,
    offset: u32,
    w: Writing,
    pointer_bytes: u32,
)
    requires
        measurable(*ty, pointer_bytes),
        constant_of(value, *ty, pointer_bytes),
        written(value, *ty, offset, w, pointer_bytes) is Some,
        !(value is Array || value is Struct || value is Enum || value is Union),
    ensures
        inside(
            w,
            written(value, *ty, offset, w, pointer_bytes)->0,
            offset as int,
            offset + size_of(*ty, pointer_bytes),
            pointer_bytes,
        ),
{
    reveal(inside);
    let to = offset + size_of(*ty, pointer_bytes);
    match value {
        ConstValue::Number(number) => {
            let width = scalar_width(*ty, pointer_bytes);
            let data = le_bytes(number_bits(number, width), width);
            lemma_le_bytes(number_bits(number, width), width);
            lemma_first_leaf(leaves_spec(*ty, pointer_bytes), pointer_bytes);
            lemma_put(w, offset, data, to, pointer_bytes);
        },
        ConstValue::Bool(_) => {
            lemma_one_leaf(Leaf::I8, pointer_bytes);
        },
        ConstValue::Char(ch) => {
            lemma_one_leaf(Leaf::I32, pointer_bytes);
            lemma_le_bytes(ch as nat, 4);
        },
        ConstValue::Str(text) => {
            lemma_two_leaves(Leaf::Ptr, Leaf::I32, pointer_bytes);
            lemma_fat_pointer(
                w.in_pool(pooled(w.pool, text_object(text@))),
                offset,
                KeyView::Text(encode_utf8(text@)),
                encode_utf8(text@).len(),
                pointer_bytes,
            );
        },
        ConstValue::Slice(elements) => match ty {
            ResolvedType::Slice { item, .. } => {
                let item: &ResolvedType = &**item;
                lemma_two_leaves(Leaf::Ptr, Leaf::I32, pointer_bytes);
                lemma_fat_pointer(
                    w.in_pool(elements_pooled(elements@, *item, w.pool, pointer_bytes)->0),
                    offset,
                    KeyView::Blob(
                        element_identities(elements@, *item, elements@.len(), pointer_bytes),
                    ),
                    elements@.len(),
                    pointer_bytes,
                );
            },
            _ => {},
        },
        ConstValue::Ref(_) => {
            lemma_one_leaf(Leaf::Ptr, pointer_bytes);
        },
        _ => {},
    }
}

proof fn lemma_array_inside(
    value: ConstValue,
    ty: &ResolvedType,
    offset: u32,
    w: Writing,
    pointer_bytes: u32,
)
    requires
        measurable(*ty, pointer_bytes),
        constant_of(value, *ty, pointer_bytes),
        written(value, *ty, offset, w, pointer_bytes) is Some,
        value is Array,
    ensures
        inside(
            w,
            written(value, *ty, offset, w, pointer_bytes)->0,
            offset as int,
            offset + size_of(*ty, pointer_bytes),
            pointer_bytes,
        ),
    decreases ty, 0int, 0nat,
{
    let to = offset + size_of(*ty, pointer_bytes);
    match (value, ty) {
        (ConstValue::Array(elements), ResolvedType::SizedArray(item, size)) => {
            let item: &ResolvedType = &**item;
            law_array_size(item, *size, pointer_bytes);
            let n = elements@.len();
            lemma_elements_inside(elements@, item, offset, n, w, pointer_bytes);
            let one = size_of(*item, pointer_bytes);
            assert(n * one <= one * (*size as nat)) by (nonlinear_arith)
                requires
                    n <= *size as nat,
            ;
            let after = elements_written(elements@, *item, offset, n, w, pointer_bytes)->0;
            lemma_inside_wider(
                w,
                after,
                offset as int,
                (offset + n * one) as int,
                offset as int,
                to as int,
                pointer_bytes,
            );
        },
        _ => {},
    }
}

proof fn lemma_any_variant_inside(
    value: ConstValue,
    ty: &ResolvedType,
    offset: u32,
    w: Writing,
    pointer_bytes: u32,
)
    requires
        measurable(*ty, pointer_bytes),
        constant_of(value, *ty, pointer_bytes),
        written(value, *ty, offset, w, pointer_bytes) is Some,
        value is Enum,
    ensures
        inside(
            w,
            written(value, *ty, offset, w, pointer_bytes)->0,
            offset as int,
            offset + size_of(*ty, pointer_bytes),
            pointer_bytes,
        ),
    decreases ty, 0int, 0nat,
{
    match ty {
        ResolvedType::Enum { cell, .. } => {
            let cell: &ResolvedEnumType = &**cell;
            let plain = ResolvedType::Enum { cell: Rc::new(*cell), variant: None };
            assert(leaves_spec(plain, pointer_bytes) == leaves_spec(*ty, pointer_bytes));
            assert(parts_measurable(*ty, pointer_bytes));
            assert(parts_measurable(plain, pointer_bytes));
            assert(measurable(plain, pointer_bytes));
            assert(constant_of(value, plain, pointer_bytes));
            assert(written(value, *ty, offset, w, pointer_bytes) == written(
                value,
                plain,
                offset,
                w,
                pointer_bytes,
            ));
            lemma_enum_size(ty, cell, pointer_bytes);
            lemma_enum_inside(value, cell, offset, w, pointer_bytes);
            lemma_inside_wider(
                w,
                enum_written(value, *cell, offset, w, pointer_bytes)->0,
                offset as int,
                offset + enum_end(*cell, pointer_bytes),
                offset as int,
                offset + size_of(*ty, pointer_bytes),
                pointer_bytes,
            );
        },
        _ => {},
    }
}

proof fn lemma_union_inside(
    value: ConstValue,
    ty: &ResolvedType,
    offset: u32,
    w: Writing,
    pointer_bytes: u32,
)
    requires
        measurable(*ty, pointer_bytes),
        constant_of(value, *ty, pointer_bytes),
        written(value, *ty, offset, w, pointer_bytes) is Some,
        value is Union,
    ensures
        inside(
            w,
            written(value, *ty, offset, w, pointer_bytes)->0,
            offset as int,
            offset + size_of(*ty, pointer_bytes),
            pointer_bytes,
        ),
    decreases ty, 0int, 0nat,
{
    match (value, ty) {
        (ConstValue::Union { field_index, value: inner }, ResolvedType::Union(cell)) => {
            let fields = cell.fields@;
            let field: &ResolvedType = &fields[field_index as int].ty;
            assert(parts_measurable(*ty, pointer_bytes));
            assert(measurable(fields[field_index as int].ty, pointer_bytes));
            lemma_union_size(ty, fields, field_index as int, pointer_bytes);
            law_writing_stays_inside(*inner, field, offset, w, pointer_bytes);
            let after = written(*inner, *field, offset, w, pointer_bytes)->0;
            lemma_inside_wider(
                w,
                after,
                offset as int,
                (offset + size_of(*field, pointer_bytes)) as int,
                offset as int,
                (offset + size_of(*ty, pointer_bytes)) as int,
                pointer_bytes,
            );
        },
        _ => {},
    }
}

/// Where the payload of an enum ends.
spec fn enum_end(cell: ResolvedEnumType, pointer_bytes: u32) -> nat {
    payload_of(cell, pointer_bytes) + payload_width(cell, pointer_bytes)
}

/// A blob once the constant of an enum has been written into it.
spec fn enum_written(
    value: ConstValue,
    cell: ResolvedEnumType,
    offset: u32,
    w: Writing,
    pointer_bytes: u32,
) -> Option<Writing> {
    written(
        value,
        ResolvedType::Enum { cell: Rc::new(cell), variant: None },
        offset,
        w,
        pointer_bytes,
    )
}

/// A blob once the tag of an enum has been written into it.
pub open spec fn tagged(
    value: ConstValue,
    cell: ResolvedEnumType,
    offset: u32,
    w: Writing,
    pointer_bytes: u32,
) -> Option<Writing> {
    match value {
        ConstValue::Enum { tag, .. } => {
            let width = scalar_width(cell.tag_type, pointer_bytes);
            w.put(offset, le_bytes(number_bits(tag, width), width))
        },
        _ => None,
    }
}

/// A blob once the first `n` header fields of an enum have been written into
/// it, behind the tag.
pub open spec fn headed(
    value: ConstValue,
    cell: ResolvedEnumType,
    offset: u32,
    w: Writing,
    n: nat,
    pointer_bytes: u32,
) -> Option<Writing> {
    match (value, tagged(value, cell, offset, w, pointer_bytes)) {
        (ConstValue::Enum { variant_index, .. }, Some(before)) => fields_written(
            cell.variants@[variant_index as int].header_values@,
            cell.header@,
            header_offsets(cell, pointer_bytes),
            offset,
            n,
            before,
            pointer_bytes,
        ),
        _ => None,
    }
}

/// How many header fields a variant gives values for.
pub open spec fn header_count(value: ConstValue, cell: ResolvedEnumType) -> nat {
    match value {
        ConstValue::Enum { variant_index, .. } => paired(
            cell.variants@[variant_index as int].header_values@.len(),
            cell.header@.len(),
        ),
        _ => 0,
    }
}

/// What is written behind an enum's header stays in the bytes of its shared
/// dynamic fields and its payload.
proof fn lemma_behind_header(
    value: ConstValue,
    cell: &ResolvedEnumType,
    offset: u32,
    w: Writing,
    from: nat,
    pointer_bytes: u32,
)
    requires
        measurable(ResolvedType::Enum { cell: Rc::new(*cell), variant: None }, pointer_bytes),
        constant_of(
            value,
            ResolvedType::Enum { cell: Rc::new(*cell), variant: None },
            pointer_bytes,
        ),
        value is Enum,
        from <= payload_of(*cell, pointer_bytes),
        between(
            cell.dynamic_fields@,
            dynamic_offsets(*cell, pointer_bytes),
            from,
            enum_end(*cell, pointer_bytes),
            pointer_bytes,
        ),
        enum_written(value, *cell, offset, w, pointer_bytes) is Some,
    ensures
        tagged(value, *cell, offset, w, pointer_bytes) is Some,
        headed(value, *cell, offset, w, header_count(value, *cell), pointer_bytes) is Some,
        inside(
            headed(value, *cell, offset, w, header_count(value, *cell), pointer_bytes)->0,
            enum_written(value, *cell, offset, w, pointer_bytes)->0,
            offset + from,
            offset + enum_end(*cell, pointer_bytes),
            pointer_bytes,
        ),
    decreases cell, 0int, 0nat,
{
    match value {
        ConstValue::Enum { variant_index, dynamic_fields, fields, .. } => {
            let end = enum_end(*cell, pointer_bytes);
            let variant = cell.variants@[variant_index as int];
            lemma_enum_places(cell, variant_index as int, pointer_bytes);
            lemma_enum_parts(cell, variant_index as int, pointer_bytes);
            let before = headed(
                value,
                *cell,
                offset,
                w,
                header_count(value, *cell),
                pointer_bytes,
            )->0;
            let common = paired(dynamic_fields@.len(), cell.dynamic_fields@.len());
            let shared = fields_written(
                dynamic_fields@,
                cell.dynamic_fields@,
                dynamic_offsets(*cell, pointer_bytes),
                offset,
                common,
                before,
                pointer_bytes,
            )->0;
            lemma_fields_inside(
                dynamic_fields@,
                cell.dynamic_fields@,
                dynamic_offsets(*cell, pointer_bytes),
                offset,
                common,
                before,
                from,
                end,
                pointer_bytes,
            );
            let own = paired(fields@.len(), variant.fields@.len());
            let places = body_offsets(*cell, variant_index as int, pointer_bytes);
            lemma_between_wider(
                variant.fields@,
                places,
                payload_of(*cell, pointer_bytes),
                end,
                from,
                end,
                pointer_bytes,
            );
            lemma_fields_inside(
                fields@,
                variant.fields@,
                places,
                offset,
                own,
                shared,
                from,
                end,
                pointer_bytes,
            );
            let whole = fields_written(
                fields@,
                variant.fields@,
                places,
                offset,
                own,
                shared,
                pointer_bytes,
            )->0;
            lemma_inside_then(before, shared, whole, offset + from, offset + end, pointer_bytes);
        },
        _ => {},
    }
}

proof fn lemma_enum_inside(
    value: ConstValue,
    cell: &ResolvedEnumType,
    offset: u32,
    w: Writing,
    pointer_bytes: u32,
)
    requires
        measurable(ResolvedType::Enum { cell: Rc::new(*cell), variant: None }, pointer_bytes),
        constant_of(
            value,
            ResolvedType::Enum { cell: Rc::new(*cell), variant: None },
            pointer_bytes,
        ),
        value is Enum,
        enum_written(value, *cell, offset, w, pointer_bytes) is Some,
    ensures
        inside(
            w,
            enum_written(value, *cell, offset, w, pointer_bytes)->0,
            offset as int,
            offset + enum_end(*cell, pointer_bytes),
            pointer_bytes,
        ),
    decreases cell, 1int, 0nat,
{
    match value {
        ConstValue::Enum { variant_index, tag, .. } => {
            let end = enum_end(*cell, pointer_bytes);
            let start = payload_of(*cell, pointer_bytes);
            let variant = cell.variants@[variant_index as int];
            let width = scalar_width(cell.tag_type, pointer_bytes);
            let data = le_bytes(number_bits(tag, width), width);
            lemma_enum_places(cell, variant_index as int, pointer_bytes);
            lemma_enum_parts(cell, variant_index as int, pointer_bytes);
            lemma_between_wider(
                cell.dynamic_fields@,
                dynamic_offsets(*cell, pointer_bytes),
                size_of(cell.tag_type, pointer_bytes),
                start,
                0,
                end,
                pointer_bytes,
            );
            lemma_behind_header(value, cell, offset, w, 0, pointer_bytes);
            lemma_le_bytes(number_bits(tag, width), width);
            lemma_first_leaf(leaves_spec(cell.tag_type, pointer_bytes), pointer_bytes);
            lemma_put(w, offset, data, offset + end, pointer_bytes);
            let first = tagged(value, *cell, offset, w, pointer_bytes)->0;
            let n = header_count(value, *cell);
            lemma_between_wider(
                cell.header@,
                header_offsets(*cell, pointer_bytes),
                size_of(cell.tag_type, pointer_bytes),
                start,
                0,
                end,
                pointer_bytes,
            );
            lemma_fields_inside(
                variant.header_values@,
                cell.header@,
                header_offsets(*cell, pointer_bytes),
                offset,
                n,
                first,
                0,
                end,
                pointer_bytes,
            );
            let second = headed(value, *cell, offset, w, n, pointer_bytes)->0;
            let whole = enum_written(value, *cell, offset, w, pointer_bytes)->0;
            lemma_inside_then(w, first, second, offset as int, offset + end, pointer_bytes);
            lemma_inside_then(w, second, whole, offset as int, offset + end, pointer_bytes);
        },
        _ => {},
    }
}

/// What an enum holds can be laid out where the enum can.
proof fn lemma_enum_parts(cell: &ResolvedEnumType, variant: int, pointer_bytes: u32)
    requires
        measurable(ResolvedType::Enum { cell: Rc::new(*cell), variant: None }, pointer_bytes),
        0 <= variant < cell.variants@.len(),
    ensures
        cell.layout.pack >= 1,
        measurable(cell.tag_type, pointer_bytes),
        fields_measurable(cell.header@, pointer_bytes),
        fields_measurable(cell.dynamic_fields@, pointer_bytes),
        fields_measurable(cell.variants@[variant].fields@, pointer_bytes),
{
    assert(parts_measurable(
        ResolvedType::Enum { cell: Rc::new(*cell), variant: None },
        pointer_bytes,
    ));
    assert(variants_measurable(cell.variants@, pointer_bytes));
}

proof fn lemma_between_wider(
    fields: Seq<ResolvedField>,
    offsets: Seq<nat>,
    from: nat,
    to: nat,
    start: nat,
    end: nat,
    pointer_bytes: u32,
)
    requires
        between(fields, offsets, from, to, pointer_bytes),
        start <= from,
        to <= end,
    ensures
        between(fields, offsets, start, end, pointer_bytes),
{
    assert forall|i: int| 0 <= i < fields.len() implies start <= #[trigger] offsets[i]
        && offsets[i] + size_of(fields[i].ty, pointer_bytes) <= end by {
        assert(from <= offsets[i]);
    }
}

proof fn lemma_elements_inside(
    values: Seq<ConstValue>,
    item: &ResolvedType,
    offset: u32,
    n: nat,
    w: Writing,
    pointer_bytes: u32,
)
    requires
        measurable(*item, pointer_bytes),
        n <= values.len(),
        forall|i: int|
            0 <= i < values.len() ==> constant_of(#[trigger] values[i], *item, pointer_bytes),
        elements_written(values, *item, offset, n, w, pointer_bytes) is Some,
    ensures
        inside(
            w,
            elements_written(values, *item, offset, n, w, pointer_bytes)->0,
            offset as int,
            (offset + n * size_of(*item, pointer_bytes)) as int,
            pointer_bytes,
        ),
    decreases item, 2int, n,
{
    let size = size_of(*item, pointer_bytes);
    if n == 0 {
        reveal(inside);
    } else {
        let m = (n - 1) as nat;
        lemma_elements_inside(values, item, offset, m, w, pointer_bytes);
        let before = elements_written(values, *item, offset, m, w, pointer_bytes)->0;
        let at = moved(offset, (m * size) as nat)->0;
        law_writing_stays_inside(values[n - 1], item, at, before, pointer_bytes);
        let after = written(values[n - 1], *item, at, before, pointer_bytes)->0;
        assert(m * size + size == n * size && 0 <= m * size) by (nonlinear_arith)
            requires
                m + 1 == n,
        ;
        let end = (offset + n * size) as int;
        lemma_inside_wider(
            w,
            before,
            offset as int,
            (offset + m * size) as int,
            offset as int,
            end,
            pointer_bytes,
        );
        lemma_inside_wider(
            before,
            after,
            at as int,
            (at + size) as int,
            offset as int,
            end,
            pointer_bytes,
        );
        lemma_inside_then(w, before, after, offset as int, end, pointer_bytes);
    }
}

/// Whether fields lie between two positions.
pub open spec fn between(
    fields: Seq<ResolvedField>,
    offsets: Seq<nat>,
    from: nat,
    to: nat,
    pointer_bytes: u32,
) -> bool {
    &&& offsets.len() == fields.len()
    &&& forall|i: int|
        0 <= i < fields.len() ==> from <= #[trigger] offsets[i] && offsets[i] + size_of(
            fields[i].ty,
            pointer_bytes,
        ) <= to
}

proof fn lemma_fields_inside(
    values: Seq<ConstValue>,
    fields: Seq<ResolvedField>,
    offsets: Seq<nat>,
    offset: u32,
    n: nat,
    w: Writing,
    from: nat,
    to: nat,
    pointer_bytes: u32,
)
    requires
        fields_measurable(fields, pointer_bytes),
        n <= values.len(),
        constants_of(values, fields, pointer_bytes),
        between(fields, offsets, from, to, pointer_bytes),
        fields_written(values, fields, offsets, offset, n, w, pointer_bytes) is Some,
    ensures
        inside(
            w,
            fields_written(values, fields, offsets, offset, n, w, pointer_bytes)->0,
            offset + from,
            offset + to,
            pointer_bytes,
        ),
    decreases fields, 0int, n,
{
    if n == 0 || n > fields.len() {
        reveal(inside);
    } else {
        let m = (n - 1) as nat;
        lemma_fields_inside(values, fields, offsets, offset, m, w, from, to, pointer_bytes);
        let before = fields_written(values, fields, offsets, offset, m, w, pointer_bytes)->0;
        assert(from <= offsets[m as int]);
        let at = moved(offset, offsets[m as int])->0;
        assert(measurable(fields[m as int].ty, pointer_bytes));
        assert(constant_of(values[m as int], fields[m as int].ty, pointer_bytes));
        law_writing_stays_inside(
            values[m as int],
            &fields[m as int].ty,
            at,
            before,
            pointer_bytes,
        );
        let after = written(
            values[m as int],
            fields[m as int].ty,
            at,
            before,
            pointer_bytes,
        )->0;
        lemma_inside_wider(
            before,
            after,
            at as int,
            (at + size_of(fields[m as int].ty, pointer_bytes)) as int,
            offset + from,
            offset + to,
            pointer_bytes,
        );
        lemma_inside_then(w, before, after, offset + from, offset + to, pointer_bytes);
    }
}

proof fn lemma_part_inside(parts: Seq<Part>, index: int, pack: nat, pointer_bytes: u32)
    requires
        pack >= 1,
        0 <= index < parts.len(),
    ensures
        plan_offset(parts, index, pack, pointer_bytes) + parts[index].size(pointer_bytes)
            <= plan_end(parts, pack, pointer_bytes),
{
    lemma_plan_grows(parts, index + 1, pack, pointer_bytes);
    assert(parts.take(index + 1).last() == parts[index]);
}

proof fn lemma_struct_places(cell: &ResolvedStructType, pointer_bytes: u32)
    requires
        cell.layout.pack >= 1,
    ensures
        between(
            cell.fields@,
            struct_offsets(*cell, pointer_bytes),
            0,
            size_of(ResolvedType::Struct(Rc::new(*cell)), pointer_bytes),
            pointer_bytes,
        ),
{
    let parts = field_parts(cell.fields@, pointer_bytes);
    lemma_field_parts(cell.fields@, pointer_bytes);
    lemma_struct_size(cell, pointer_bytes);
    assert forall|i: int| 0 <= i < cell.fields@.len() implies (#[trigger] struct_offsets(
        *cell,
        pointer_bytes,
    )[i]) + size_of(cell.fields@[i].ty, pointer_bytes) <= size_of(
        ResolvedType::Struct(Rc::new(*cell)),
        pointer_bytes,
    ) by {
        lemma_part_inside(parts, i, cell.layout.pack as nat, pointer_bytes);
        assert(parts[i].leaves == leaves_spec(cell.fields@[i].ty, pointer_bytes));
    }
}

/// Where the parts of an enum lie: the tag, then the header, then the shared
/// dynamic fields, all before the payload, and the fields of a variant in it.
proof fn lemma_enum_places(cell: &ResolvedEnumType, variant: int, pointer_bytes: u32)
    requires
        cell.layout.pack >= 1,
        0 <= variant < cell.variants@.len(),
    ensures
        ({
            let start = payload_of(*cell, pointer_bytes);
            let tag = size_of(cell.tag_type, pointer_bytes);
            &&& tag <= start
            &&& between(
                cell.header@,
                header_offsets(*cell, pointer_bytes),
                tag,
                start,
                pointer_bytes,
            )
            &&& between(
                cell.dynamic_fields@,
                dynamic_offsets(*cell, pointer_bytes),
                tag,
                start,
                pointer_bytes,
            )
            &&& forall|i: int, j: int|
                0 <= i < cell.header@.len() && 0 <= j < cell.dynamic_fields@.len() ==> (
                #[trigger] header_at(*cell, i, pointer_bytes)) + size_of(
                    cell.header@[i].ty,
                    pointer_bytes,
                ) <= #[trigger] dynamic_at(*cell, j, pointer_bytes)
            &&& between(
                cell.variants@[variant].fields@,
                body_offsets(*cell, variant, pointer_bytes),
                start,
                start + payload_width(*cell, pointer_bytes),
                pointer_bytes,
            )
        }),
{
    let pack = cell.layout.pack as nat;
    let prefix = named_prefix(*cell, pointer_bytes);
    let bodies = variant_parts(cell.variants@, pointer_bytes);
    let start = payload_of(*cell, pointer_bytes);
    lemma_field_parts(cell.header@, pointer_bytes);
    lemma_field_parts(cell.dynamic_fields@, pointer_bytes);
    lemma_variant_parts(cell.variants@, pointer_bytes);
    lemma_placed(
        plan_end(prefix, pack, pointer_bytes),
        bodies_align(bodies),
        payload_width(*cell, pointer_bytes),
        pack,
    );
    lemma_part_inside(prefix, 0, pack, pointer_bytes);
    let headers = cell.header@.len();
    assert forall|i: int| 0 <= i < headers implies size_of(cell.tag_type, pointer_bytes)
        <= #[trigger] header_offsets(*cell, pointer_bytes)[i] && header_offsets(
        *cell,
        pointer_bytes,
    )[i] + size_of(cell.header@[i].ty, pointer_bytes) <= start by {
        assert(prefix[1 + i] == field_parts(cell.header@, pointer_bytes)[i]);
        lemma_part_inside(prefix, 1 + i, pack, pointer_bytes);
        law_fields_do_not_overlap(prefix, 0, 1 + i, pack, pointer_bytes);
    }
    assert forall|i: int| 0 <= i < cell.dynamic_fields@.len() implies size_of(
        cell.tag_type,
        pointer_bytes,
    ) <= #[trigger] dynamic_offsets(*cell, pointer_bytes)[i] && dynamic_offsets(
        *cell,
        pointer_bytes,
    )[i] + size_of(cell.dynamic_fields@[i].ty, pointer_bytes) <= start by {
        assert(prefix[1 + headers + i] == field_parts(cell.dynamic_fields@, pointer_bytes)[i]);
        lemma_part_inside(prefix, 1 + headers + i, pack, pointer_bytes);
        law_fields_do_not_overlap(prefix, 0, 1 + headers + i, pack, pointer_bytes);
    }
    assert forall|i: int, j: int|
        0 <= i < headers && 0 <= j < cell.dynamic_fields@.len() implies (#[trigger] header_at(
        *cell,
        i,
        pointer_bytes,
    )) + size_of(cell.header@[i].ty, pointer_bytes) <= #[trigger] dynamic_at(
        *cell,
        j,
        pointer_bytes,
    ) by {
        assert(prefix[1 + i] == field_parts(cell.header@, pointer_bytes)[i]);
        law_fields_do_not_overlap(prefix, 1 + i, 1 + headers + j, pack, pointer_bytes);
    }
    let fields = cell.variants@[variant].fields@;
    let parts = field_parts(fields, pointer_bytes);
    lemma_field_parts(fields, pointer_bytes);
    lemma_bodies_max_grows(bodies, variant + 1, pack, pointer_bytes);
    assert(bodies.take(variant + 1).last() == bodies[variant]);
    assert(bodies[variant] == parts);
    assert forall|i: int| 0 <= i < fields.len() implies start <= #[trigger] body_offsets(
        *cell,
        variant,
        pointer_bytes,
    )[i] && body_offsets(*cell, variant, pointer_bytes)[i] + size_of(fields[i].ty, pointer_bytes)
        <= start + payload_width(*cell, pointer_bytes) by {
        lemma_part_inside(parts, i, pack, pointer_bytes);
        assert(parts[i].leaves == leaves_spec(fields[i].ty, pointer_bytes));
        assert(body_offsets(*cell, variant, pointer_bytes)[i] == body_at(
            *cell,
            variant,
            i,
            pointer_bytes,
        ));
    }
}

proof fn lemma_enum_size(ty: &ResolvedType, cell: &ResolvedEnumType, pointer_bytes: u32)
    requires
        *ty matches ResolvedType::Enum { cell: own, .. } && *own == *cell,
        cell.layout.pack >= 1,
    ensures
        payload_of(*cell, pointer_bytes) + payload_width(*cell, pointer_bytes) <= size_of(
            *ty,
            pointer_bytes,
        ),
{
    let pack = cell.layout.pack as nat;
    let prefix = named_prefix(*cell, pointer_bytes);
    let bodies = variant_parts(cell.variants@, pointer_bytes);
    let declared = cell.layout.align as nat;
    law_enum_leaves_fill(prefix, bodies, pack, declared, pointer_bytes);
    lemma_rounded(
        payload_of(*cell, pointer_bytes) + payload_width(*cell, pointer_bytes),
        enum_align(prefix, bodies, declared),
    );
}

proof fn lemma_union_size(
    ty: &ResolvedType,
    fields: Seq<ResolvedField>,
    index: int,
    pointer_bytes: u32,
)
    requires
        *ty matches ResolvedType::Union(cell) && cell.fields@ == fields,
        0 <= index < fields.len(),
    ensures
        size_of(fields[index].ty, pointer_bytes) <= size_of(*ty, pointer_bytes),
{
    let parts = field_parts(fields, pointer_bytes);
    lemma_field_parts(fields, pointer_bytes);
    lemma_parts_max_grows(parts, index + 1, pointer_bytes);
    assert(parts.take(index + 1).last() == parts[index]);
    let most = parts_max(parts, pointer_bytes);
    let align = fields_align(fields);
    lemma_rounded(most, align);
    law_chunks_fill(rounded(most, align), pointer_bytes);
    assert(parts[index].leaves == leaves_spec(fields[index].ty, pointer_bytes));
}

/// Whether writing left the bytes from one position to another as they were.
pub open spec fn untouched(a: Writing, b: Writing, from: int, to: int) -> bool {
    &&& b.blob.bytes.len() == a.blob.bytes.len()
    &&& forall|k: int|
        0 <= k < a.blob.bytes.len() && from <= k < to ==> #[trigger] b.blob.bytes[k]
            == a.blob.bytes[k]
}

proof fn lemma_untouched(
    a: Writing,
    b: Writing,
    from: int,
    to: int,
    start: int,
    end: int,
    pointer_bytes: u32,
)
    requires
        inside(a, b, from, to, pointer_bytes),
        end <= from || to <= start,
    ensures
        untouched(a, b, start, end),
{
    reveal(inside);
}

proof fn lemma_fields_last(
    values: Seq<ConstValue>,
    fields: Seq<ResolvedField>,
    offsets: Seq<nat>,
    offset: u32,
    index: int,
    n: nat,
    w: Writing,
    end: nat,
    pointer_bytes: u32,
)
    requires
        fields_measurable(fields, pointer_bytes),
        0 <= index < n,
        n <= values.len(),
        n <= fields.len(),
        constants_of(values, fields, pointer_bytes),
        offsets.len() == fields.len(),
        forall|j: int| index < j < n ==> end <= #[trigger] offsets[j],
        fields_written(values, fields, offsets, offset, n, w, pointer_bytes) is Some,
    ensures
        fields_written(
            values,
            fields,
            offsets,
            offset,
            (index + 1) as nat,
            w,
            pointer_bytes,
        ) is Some,
        untouched(
            fields_written(
                values,
                fields,
                offsets,
                offset,
                (index + 1) as nat,
                w,
                pointer_bytes,
            )->0,
            fields_written(values, fields, offsets, offset, n, w, pointer_bytes)->0,
            offset as int,
            offset + end,
        ),
    decreases n,
{
    if index + 1 < n {
        let m = (n - 1) as nat;
        lemma_fields_last(
            values,
            fields,
            offsets,
            offset,
            index,
            m,
            w,
            end,
            pointer_bytes,
        );
        let before = fields_written(values, fields, offsets, offset, m, w, pointer_bytes)->0;
        let at = moved(offset, offsets[m as int])->0;
        assert(measurable(fields[m as int].ty, pointer_bytes));
        assert(constant_of(values[m as int], fields[m as int].ty, pointer_bytes));
        assert(end <= offsets[m as int]);
        law_writing_stays_inside(
            values[m as int],
            &fields[m as int].ty,
            at,
            before,
            pointer_bytes,
        );
        let after = written(
            values[m as int],
            fields[m as int].ty,
            at,
            before,
            pointer_bytes,
        )->0;
        lemma_untouched(
            before,
            after,
            at as int,
            (at + size_of(fields[m as int].ty, pointer_bytes)) as int,
            offset as int,
            offset + end,
            pointer_bytes,
        );
    }
}

/// A field of a struct constant keeps the bytes it was given: once it is
/// written, writing the fields behind it leaves them, and everything before
/// them, as they are.
pub proof fn law_struct_fields_keep_their_bytes(
    values: Seq<ConstValue>,
    cell: &ResolvedStructType,
    offset: u32,
    index: int,
    w: Writing,
    pointer_bytes: u32,
)
    requires
        measurable(ResolvedType::Struct(Rc::new(*cell)), pointer_bytes),
        constants_of(values, cell.fields@, pointer_bytes),
        0 <= index < paired(values.len(), cell.fields@.len()),
        fields_written(
            values,
            cell.fields@,
            struct_offsets(*cell, pointer_bytes),
            offset,
            paired(values.len(), cell.fields@.len()),
            w,
            pointer_bytes,
        ) is Some,
    ensures
        ({
            let offsets = struct_offsets(*cell, pointer_bytes);
            let count = paired(values.len(), cell.fields@.len());
            let given = fields_written(
                values,
                cell.fields@,
                offsets,
                offset,
                (index + 1) as nat,
                w,
                pointer_bytes,
            );
            &&& given is Some
            &&& untouched(
                given->0,
                fields_written(
                    values,
                    cell.fields@,
                    offsets,
                    offset,
                    count,
                    w,
                    pointer_bytes,
                )->0,
                offset as int,
                offset + offsets[index] + size_of(cell.fields@[index].ty, pointer_bytes),
            )
        }),
{
    let fields = cell.fields@;
    let offsets = struct_offsets(*cell, pointer_bytes);
    let parts = field_parts(fields, pointer_bytes);
    let pack = cell.layout.pack as nat;
    assert(parts_measurable(ResolvedType::Struct(Rc::new(*cell)), pointer_bytes));
    lemma_field_parts(fields, pointer_bytes);
    let end = offsets[index] + size_of(fields[index].ty, pointer_bytes);
    assert forall|j: int| index < j < fields.len() implies end <= #[trigger] offsets[j] by {
        law_fields_do_not_overlap(parts, index, j, pack, pointer_bytes);
        assert(parts[index].leaves == leaves_spec(fields[index].ty, pointer_bytes));
    }
    lemma_fields_last(
        values,
        fields,
        offsets,
        offset,
        index,
        paired(values.len(), fields.len()),
        w,
        end,
        pointer_bytes,
    );
}

/// A header field of an enum constant keeps the bytes it was given, at the
/// place where the field is read: once it is written, neither the header
/// fields behind it nor the shared dynamic fields nor the payload touch them,
/// nor the tag.
pub proof fn law_enum_headers_keep_their_bytes(
    value: ConstValue,
    cell: &ResolvedEnumType,
    offset: u32,
    index: int,
    w: Writing,
    pointer_bytes: u32,
)
    requires
        measurable(ResolvedType::Enum { cell: Rc::new(*cell), variant: None }, pointer_bytes),
        constant_of(
            value,
            ResolvedType::Enum { cell: Rc::new(*cell), variant: None },
            pointer_bytes,
        ),
        value is Enum,
        0 <= index < header_count(value, *cell),
        written(
            value,
            ResolvedType::Enum { cell: Rc::new(*cell), variant: None },
            offset,
            w,
            pointer_bytes,
        ) is Some,
    ensures
        ({
            let given = headed(value, *cell, offset, w, (index + 1) as nat, pointer_bytes);
            &&& given is Some
            &&& untouched(
                given->0,
                written(
                    value,
                    ResolvedType::Enum { cell: Rc::new(*cell), variant: None },
                    offset,
                    w,
                    pointer_bytes,
                )->0,
                offset as int,
                offset + header_at(*cell, index, pointer_bytes) + size_of(
                    cell.header@[index].ty,
                    pointer_bytes,
                ),
            )
        }),
{
    match value {
        ConstValue::Enum { variant_index, .. } => {
            let variant = cell.variants@[variant_index as int];
            let places = header_offsets(*cell, pointer_bytes);
            let n = header_count(value, *cell);
            let end = places[index] + size_of(cell.header@[index].ty, pointer_bytes);
            lemma_enum_parts(cell, variant_index as int, pointer_bytes);
            lemma_enum_places(cell, variant_index as int, pointer_bytes);
            let prefix = named_prefix(*cell, pointer_bytes);
            lemma_field_parts(cell.header@, pointer_bytes);
            lemma_field_parts(cell.dynamic_fields@, pointer_bytes);
            assert forall|j: int| index < j < cell.header@.len() implies end
                <= #[trigger] places[j] by {
                assert(prefix[1 + index] == field_parts(cell.header@, pointer_bytes)[index]);
                law_fields_do_not_overlap(
                    prefix,
                    1 + index,
                    1 + j,
                    cell.layout.pack as nat,
                    pointer_bytes,
                );
            }
            let shared = dynamic_offsets(*cell, pointer_bytes);
            let whole_end = enum_end(*cell, pointer_bytes);
            assert forall|j: int| 0 <= j < cell.dynamic_fields@.len() implies end
                <= #[trigger] shared[j] && shared[j] + size_of(
                cell.dynamic_fields@[j].ty,
                pointer_bytes,
            ) <= whole_end by {
                assert(header_at(*cell, index, pointer_bytes) + size_of(
                    cell.header@[index].ty,
                    pointer_bytes,
                ) <= dynamic_at(*cell, j, pointer_bytes));
            }
            assert(end <= payload_of(*cell, pointer_bytes)) by {
                assert(places[index] >= 0);
            }
            lemma_behind_header(value, cell, offset, w, end, pointer_bytes);
            let first = tagged(value, *cell, offset, w, pointer_bytes)->0;
            lemma_fields_last(
                variant.header_values@,
                cell.header@,
                places,
                offset,
                index,
                n,
                first,
                end,
                pointer_bytes,
            );
            let second = headed(value, *cell, offset, w, n, pointer_bytes)->0;
            let whole = enum_written(value, *cell, offset, w, pointer_bytes)->0;
            lemma_untouched(
                second,
                whole,
                offset + end,
                offset + whole_end,
                offset as int,
                offset + end,
                pointer_bytes,
            );
        },
        _ => {},
    }
}

} // verus!
