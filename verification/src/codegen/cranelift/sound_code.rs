//! That lowering constants, places and expressions keeps functions sound.

use crate::checked::{CastKind, NumberValue};
use crate::codegen::abi::{promoted, returned, returns_indirectly, ReturnView};
use crate::codegen::constants::{
    body_offsets, dynamic_offsets, element_identities, elements_pooled, header_offsets, moved,
    paired, place_of, pooled, target_identity, target_pooled, text_object, KeyView, ObjectView,
};
use crate::codegen::cranelift::{
    addressed, leaf_ir, leaves_width, loaded, pointer_ir, slot_for, spilled, stored, Arith, Convert,
    IrType, Lowered, LoweringView, Op, SlotData, Storage,
};
use crate::codegen::cranelift::constant::{
    bytes_emitted, const_emitted, data_address, elements_emitted, field_stored, fields_emitted,
    fields_stored, number_emitted, prefix_stored, sequence_emitted, wrapped, zero_filled,
};
use crate::codegen::cranelift::expr::{
    args_lowered, arith_of, binary_lowered, bound_lowered, call_lowered, called, cast_lowered,
    coerce_lowered, constructed, conversion, converted, dynamic_lowered, end_lowered, expr_lowered,
    fields_gathered, fields_placed, first_of, flattened, float_cc, int_cc, nodes_lowered, operated,
    passed, results, sequence_parts, slice_lowered, slice_of, sliced, struct_lowered, table_address,
    union_lowered, variadic_promoted,
};
use crate::codegen::cranelift::place::{
    all_projected, element_address, elements_base, place_lowered, place_resolved, pointer_wide,
    projected, root_resolved, PlaceState,
};
use crate::codegen::cranelift::soundness::{
    countable, follows, has, have_all, is_call, kept, lemma_addressed, lemma_count, lemma_define,
    lemma_define_like, lemma_grows, lemma_has, lemma_have, lemma_loaded, lemma_pool, lemma_push,
    lemma_reachable, lemma_rooted, lemma_same, lemma_slot, lemma_spilled, lemma_stored, lemma_table,
    lemma_then, made, ok, passed_last, reachable, rooted, Scope,
};
use crate::codegen::mir::{
    MirBinaryOp, MirCast, MirDynamicCall, MirEnumConstruct, MirExpr, MirExprNode, MirFieldValue,
    MirFunctionCall, MirPlace, MirPlaceRoot, MirProjection, MirSlice, MirSpecCoerce,
};
use crate::codegen::pool_laws::{
    grew, law_positions_lead_to_their_key, lemma_elements_pooled, lemma_pooled, lemma_target_pooled,
};
use crate::codegen::shared::{
    is_float, lemma_table_found, operand_kind, table_position, unsized_length, Vtable,
};
use crate::hir::HirId;
use crate::layout::{chunks, leaves_spec, payload_of, payload_width, size_of, Leaf};
use crate::resolved_type::{
    ConstValue, NumericKind, ResolvedEnumType, ResolvedField, ResolvedFunctionType, ResolvedType,
};
use crate::syntax::BinaryOp;
use std::rc::Rc;
use vstd::prelude::*;
use vstd::utf8::encode_utf8;

verus! {

proof fn lemma_made_then(c: Scope, s: LoweringView, a: LoweringView, l: Lowered)
    requires
        kept(c, s, a),
        made(c, a, l),
    ensures
        made(c, s, l),
        countable(l.state) ==> countable(a),
        countable(a) ==> countable(s),
{
    lemma_then(s, a, l.state);
}

proof fn lemma_kept_then(c: Scope, s: LoweringView, a: LoweringView, b: LoweringView)
    requires
        kept(c, s, a),
        kept(c, a, b),
    ensures
        kept(c, s, b),
        countable(b) ==> countable(a),
        countable(a) ==> countable(s),
{
    lemma_then(s, a, b);
}

proof fn lemma_number(c: Scope, s: LoweringView, number: NumberValue, ir: IrType)
    requires
        ok(c, s),
    ensures
        made(c, s, number_emitted(s, number, ir)),
{
    match number {
        NumberValue::Signed(v) => {
            lemma_define(c, s, Op::Iconst(v), ir);
        },
        NumberValue::Unsigned(v) => {
            lemma_define(c, s, Op::Iconst(wrapped(v)), ir);
        },
        NumberValue::Float(bits) => if ir is F32 {
            lemma_define(
                c,
                s,
                Op::F32Const(crate::codegen::float_bits::narrowed(bits)),
                IrType::F32,
            );
        } else {
            lemma_define(c, s, Op::F64Const(bits), IrType::F64);
        },
    }
}

proof fn lemma_data_address(c: Scope, s: LoweringView, key: KeyView, pointer_bytes: u32)
    requires
        ok(c, s),
        data_address(s, key, pointer_bytes) is Some,
    ensures
        made(c, s, data_address(s, key, pointer_bytes)->0),
{
    if countable(s) {
        law_positions_lead_to_their_key(s.pool, key);
    }
    lemma_define(c, s, Op::DataAddr(place_of(s.pool, key)->0), pointer_ir(pointer_bytes));
}

proof fn lemma_sequence(
    c: Scope,
    s: LoweringView,
    pool: Seq<ObjectView>,
    key: KeyView,
    length: nat,
    pointer_bytes: u32,
)
    requires
        ok(c, s),
        grew(s.pool, pool),
        sequence_emitted(s, pool, key, length, pointer_bytes) is Some,
    ensures
        made(c, s, sequence_emitted(s, pool, key, length, pointer_bytes)->0),
{
    let op = Op::Iconst(wrapped(length as u64));
    let counted = s.push(op, Some(IrType::I32));
    lemma_define(c, s, op, IrType::I32);
    let ready = counted.with_pool(pool);
    lemma_pool(c, counted, pool);
    lemma_kept_then(c, s, counted, ready);
    lemma_data_address(c, ready, key, pointer_bytes);
    let found = data_address(ready, key, pointer_bytes)->0;
    lemma_made_then(c, s, ready, found);
    lemma_then(counted, ready, found.state);
    if countable(found.state) {
        lemma_has(counted, found.state, s.next());
    }
}

proof fn lemma_bytes(c: Scope, s: LoweringView, text: Seq<char>, pointer_bytes: u32)
    requires
        ok(c, s),
        bytes_emitted(s, text, pointer_bytes) is Some,
    ensures
        made(c, s, bytes_emitted(s, text, pointer_bytes)->0),
{
    lemma_pooled(s.pool, text);
    lemma_sequence(
        c,
        s,
        pooled(s.pool, text_object(text)),
        KeyView::Text(encode_utf8(text)),
        encode_utf8(text).len(),
        pointer_bytes,
    );
}

proof fn lemma_zero_filled(
    c: Scope,
    s: LoweringView,
    leaves: Seq<Leaf>,
    slot: usize,
    start: u32,
    pointer_bytes: u32,
    n: nat,
)
    requires
        ok(c, s),
        countable(s) ==> slot < s.slots.len(),
        zero_filled(s, leaves, slot, start, pointer_bytes, n) is Some,
    ensures
        kept(c, s, zero_filled(s, leaves, slot, start, pointer_bytes, n)->0),
    decreases n,
{
    if n == 0 {
        lemma_same(c, s);
    } else {
        lemma_zero_filled(c, s, leaves, slot, start, pointer_bytes, (n - 1) as nat);
        let before = zero_filled(s, leaves, slot, start, pointer_bytes, (n - 1) as nat)->0;
        let ty = leaf_ir(leaves[n - 1], pointer_bytes);
        let offset = moved(start, leaves_width(leaves, pointer_bytes, (n - 1) as nat))->0;
        let zero = before.push(Op::Iconst(0), Some(ty));
        lemma_define(c, before, Op::Iconst(0), ty);
        lemma_kept_then(c, s, before, zero);
        if countable(zero) {
            lemma_reachable(s, zero, Storage::Slot { slot, offset });
        }
        let op = Op::StackStore { value: before.next(), slot, offset };
        lemma_push(c, zero, op, None);
        lemma_kept_then(c, s, zero, zero.push(op, None));
    }
}

#[verifier::rlimit(60)]
proof fn lemma_const(
    c: Scope,
    s: LoweringView,
    value: ConstValue,
    ty: &ResolvedType,
    pointer_bytes: u32,
)
    requires
        ok(c, s),
        const_emitted(s, value, *ty, pointer_bytes) is Some,
    ensures
        made(c, s, const_emitted(s, value, *ty, pointer_bytes)->0),
    decreases ty, 0int, 0nat,
{
    match value {
        ConstValue::Number(number) => {
            lemma_number(
                c,
                s,
                number,
                leaf_ir(leaves_spec(*ty, pointer_bytes)[0], pointer_bytes),
            );
        },
        ConstValue::Bool(flag) => {
            let bit: i64 = if flag {
                1
            } else {
                0
            };
            lemma_define(c, s, Op::Iconst(bit), IrType::I8);
        },
        ConstValue::Char(ch) => {
            lemma_define(c, s, Op::Iconst(ch as i64), IrType::I32);
        },
        ConstValue::Str(text) => {
            lemma_bytes(c, s, text@, pointer_bytes);
        },
        ConstValue::Slice(elements) => match ty {
            ResolvedType::Slice { item, .. } => {
                let item: &ResolvedType = &**item;
                lemma_elements_pooled(elements@, item, s.pool, pointer_bytes);
                lemma_sequence(
                    c,
                    s,
                    elements_pooled(elements@, *item, s.pool, pointer_bytes)->0,
                    KeyView::Blob(
                        element_identities(elements@, *item, elements@.len(), pointer_bytes),
                    ),
                    elements@.len(),
                    pointer_bytes,
                );
            },
            _ => {},
        },
        ConstValue::Array(elements) => match ty {
            ResolvedType::SizedArray(item, _) => {
                lemma_elements(c, s, elements@, &**item, elements@.len(), pointer_bytes);
            },
            _ => {},
        },
        ConstValue::Struct(fields) => match ty {
            ResolvedType::Struct(cell) => {
                lemma_fields(
                    c,
                    s,
                    fields@,
                    cell.fields@,
                    paired(fields@.len(), cell.fields@.len()),
                    pointer_bytes,
                );
            },
            _ => {},
        },
        ConstValue::Enum { variant_index, tag, dynamic_fields, fields, .. } => match ty {
            ResolvedType::Enum { cell, .. } => {
                let cell: &ResolvedEnumType = &**cell;
                let variant = cell.variants@[variant_index as int];
                let slot = s.next_slot();
                let data = slot_for(*ty, pointer_bytes);
                let room = s.with_slot(data);
                lemma_slot(c, s, data);
                lemma_prefix(c, room, tag, variant.header_values@, cell, slot, pointer_bytes);
                let headed = prefix_stored(
                    room,
                    tag,
                    variant.header_values@,
                    *cell,
                    slot,
                    pointer_bytes,
                )->0;
                lemma_kept_then(c, s, room, headed);
                if countable(headed) {
                    lemma_reachable(room, headed, Storage::Slot { slot, offset: 0 });
                }
                lemma_fields_stored(
                    c,
                    headed,
                    dynamic_fields@,
                    cell.dynamic_fields@,
                    dynamic_offsets(*cell, pointer_bytes),
                    slot,
                    paired(dynamic_fields@.len(), cell.dynamic_fields@.len()),
                    pointer_bytes,
                );
                let shared = fields_stored(
                    headed,
                    dynamic_fields@,
                    cell.dynamic_fields@,
                    dynamic_offsets(*cell, pointer_bytes),
                    slot,
                    paired(dynamic_fields@.len(), cell.dynamic_fields@.len()),
                    pointer_bytes,
                )->0;
                lemma_kept_then(c, s, headed, shared);
                if countable(shared) {
                    lemma_reachable(headed, shared, Storage::Slot { slot, offset: 0 });
                }
                lemma_fields_stored(
                    c,
                    shared,
                    fields@,
                    variant.fields@,
                    body_offsets(*cell, variant_index as int, pointer_bytes),
                    slot,
                    paired(fields@.len(), variant.fields@.len()),
                    pointer_bytes,
                );
                let whole = fields_stored(
                    shared,
                    fields@,
                    variant.fields@,
                    body_offsets(*cell, variant_index as int, pointer_bytes),
                    slot,
                    paired(fields@.len(), variant.fields@.len()),
                    pointer_bytes,
                )->0;
                lemma_kept_then(c, s, shared, whole);
                if countable(whole) {
                    lemma_reachable(shared, whole, Storage::Slot { slot, offset: 0 });
                }
                lemma_loaded(c, whole, Storage::Slot { slot, offset: 0 }, *ty, pointer_bytes);
                lemma_made_then(
                    c,
                    s,
                    whole,
                    loaded(whole, Storage::Slot { slot, offset: 0 }, *ty, pointer_bytes)->0,
                );
            },
            _ => {},
        },
        ConstValue::Union { field_index, value: inner } => match ty {
            ResolvedType::Union(cell) => {
                let slot = s.next_slot();
                let storage = Storage::Slot { slot, offset: 0 };
                let leaves = leaves_spec(*ty, pointer_bytes);
                let data = SlotData { size: size_of(*ty, pointer_bytes) as u32, align_shift: 4 };
                let room = s.with_slot(data);
                lemma_slot(c, s, data);
                lemma_zero_filled(c, room, leaves, slot, 0, pointer_bytes, leaves.len());
                let cleared = zero_filled(room, leaves, slot, 0, pointer_bytes, leaves.len())->0;
                lemma_kept_then(c, s, room, cleared);
                if countable(cleared) {
                    lemma_reachable(room, cleared, storage);
                }
                let field_type: &ResolvedType = &cell.fields@[field_index as int].ty;
                lemma_const(c, cleared, *inner, field_type, pointer_bytes);
                let field = const_emitted(cleared, *inner, *field_type, pointer_bytes)->0;
                lemma_made_then(c, s, cleared, field);
                if countable(field.state) {
                    lemma_reachable(cleared, field.state, storage);
                }
                lemma_stored(c, field.state, storage, field.values, field.values.len());
                let whole = stored(field.state, storage, field.values, field.values.len())->0;
                lemma_kept_then(c, s, field.state, whole);
                if countable(whole) {
                    lemma_reachable(field.state, whole, storage);
                }
                lemma_loaded(c, whole, storage, *ty, pointer_bytes);
                lemma_made_then(c, s, whole, loaded(whole, storage, *ty, pointer_bytes)->0);
            },
            _ => {},
        },
        ConstValue::Ref(inner) => match ty {
            ResolvedType::Pointer { pointee, .. } => {
                let pointee: &ResolvedType = &**pointee;
                lemma_target_pooled(*inner, pointee, s.pool, pointer_bytes);
                let pool = target_pooled(*inner, *pointee, s.pool, pointer_bytes)->0;
                let ready = s.with_pool(pool);
                lemma_pool(c, s, pool);
                let key = KeyView::Blob(target_identity(*inner, *pointee, pointer_bytes));
                lemma_data_address(c, ready, key, pointer_bytes);
                lemma_made_then(c, s, ready, data_address(ready, key, pointer_bytes)->0);
            },
            _ => {},
        },
    }
}

proof fn lemma_append(
    c: Scope,
    s: LoweringView,
    before: Lowered,
    last: Lowered,
)
    requires
        made(c, s, before),
        made(c, before.state, last),
    ensures
        made(c, s, Lowered { values: before.values + last.values, ..last }),
{
    lemma_made_then(c, s, before.state, last);
    if countable(last.state) {
        lemma_have(before.state, last.state, before.values);
        let all = before.values + last.values;
        assert forall|i: int| 0 <= i < all.len() implies has(last.state, #[trigger] all[i]) by {
            if i < before.values.len() {
                assert(all[i] == before.values[i]);
            } else {
                assert(all[i] == last.values[i - before.values.len()]);
            }
        }
    }
}

proof fn lemma_elements(
    c: Scope,
    s: LoweringView,
    values: Seq<ConstValue>,
    item: &ResolvedType,
    n: nat,
    pointer_bytes: u32,
)
    requires
        ok(c, s),
        elements_emitted(s, values, *item, n, pointer_bytes) is Some,
    ensures
        made(c, s, elements_emitted(s, values, *item, n, pointer_bytes)->0),
    decreases item, 1int, n,
{
    if n == 0 {
        lemma_same(c, s);
    } else {
        lemma_elements(c, s, values, item, (n - 1) as nat, pointer_bytes);
        let before = elements_emitted(s, values, *item, (n - 1) as nat, pointer_bytes)->0;
        lemma_const(c, before.state, values[n - 1], item, pointer_bytes);
        lemma_append(
            c,
            s,
            before,
            const_emitted(before.state, values[n - 1], *item, pointer_bytes)->0,
        );
    }
}

proof fn lemma_fields(
    c: Scope,
    s: LoweringView,
    values: Seq<ConstValue>,
    fields: Seq<ResolvedField>,
    n: nat,
    pointer_bytes: u32,
)
    requires
        ok(c, s),
        fields_emitted(s, values, fields, n, pointer_bytes) is Some,
    ensures
        made(c, s, fields_emitted(s, values, fields, n, pointer_bytes)->0),
    decreases fields, 0int, n,
{
    if n == 0 || n > fields.len() {
        lemma_same(c, s);
    } else {
        lemma_fields(c, s, values, fields, (n - 1) as nat, pointer_bytes);
        let before = fields_emitted(s, values, fields, (n - 1) as nat, pointer_bytes)->0;
        lemma_const(c, before.state, values[n - 1], &fields[n - 1].ty, pointer_bytes);
        lemma_append(
            c,
            s,
            before,
            const_emitted(before.state, values[n - 1], fields[n - 1].ty, pointer_bytes)->0,
        );
    }
}

proof fn lemma_field_stored(
    c: Scope,
    s: LoweringView,
    value: ConstValue,
    ty: &ResolvedType,
    slot: usize,
    at: nat,
    pointer_bytes: u32,
)
    requires
        ok(c, s),
        countable(s) ==> slot < s.slots.len(),
        field_stored(s, value, *ty, slot, at, pointer_bytes) is Some,
    ensures
        kept(c, s, field_stored(s, value, *ty, slot, at, pointer_bytes)->0),
    decreases ty, 1int, 0nat,
{
    lemma_const(c, s, value, ty, pointer_bytes);
    let field = const_emitted(s, value, *ty, pointer_bytes)->0;
    let storage = Storage::Slot { slot, offset: moved(0, at)->0 };
    lemma_count(s, field.state);
    if countable(field.state) {
        lemma_reachable(s, field.state, storage);
    }
    lemma_stored(c, field.state, storage, field.values, field.values.len());
    lemma_kept_then(
        c,
        s,
        field.state,
        stored(field.state, storage, field.values, field.values.len())->0,
    );
}

proof fn lemma_fields_stored(
    c: Scope,
    s: LoweringView,
    values: Seq<ConstValue>,
    fields: Seq<ResolvedField>,
    offsets: Seq<nat>,
    slot: usize,
    n: nat,
    pointer_bytes: u32,
)
    requires
        ok(c, s),
        countable(s) ==> slot < s.slots.len(),
        fields_stored(s, values, fields, offsets, slot, n, pointer_bytes) is Some,
    ensures
        kept(c, s, fields_stored(s, values, fields, offsets, slot, n, pointer_bytes)->0),
    decreases fields, 0int, n,
{
    if n == 0 || n > fields.len() {
        lemma_same(c, s);
    } else {
        lemma_fields_stored(c, s, values, fields, offsets, slot, (n - 1) as nat, pointer_bytes);
        let before = fields_stored(
            s,
            values,
            fields,
            offsets,
            slot,
            (n - 1) as nat,
            pointer_bytes,
        )->0;
        lemma_count(s, before);
        if countable(before) {
            lemma_reachable(s, before, Storage::Slot { slot, offset: 0 });
        }
        lemma_field_stored(
            c,
            before,
            values[n - 1],
            &fields[n - 1].ty,
            slot,
            offsets[n - 1],
            pointer_bytes,
        );
        lemma_kept_then(
            c,
            s,
            before,
            fields_stored(s, values, fields, offsets, slot, n, pointer_bytes)->0,
        );
    }
}

proof fn lemma_prefix(
    c: Scope,
    s: LoweringView,
    tag: NumberValue,
    header: Seq<ConstValue>,
    cell: &ResolvedEnumType,
    slot: usize,
    pointer_bytes: u32,
)
    requires
        ok(c, s),
        countable(s) ==> slot < s.slots.len(),
        prefix_stored(s, tag, header, *cell, slot, pointer_bytes) is Some,
    ensures
        kept(c, s, prefix_stored(s, tag, header, *cell, slot, pointer_bytes)->0),
    decreases cell, 0int, 0nat,
{
    let ir = leaf_ir(leaves_spec(cell.tag_type, pointer_bytes)[0], pointer_bytes);
    let storage = Storage::Slot { slot, offset: 0 };
    lemma_number(c, s, tag, ir);
    let emitted = number_emitted(s, tag, ir);
    lemma_count(s, emitted.state);
    if countable(emitted.state) {
        lemma_reachable(s, emitted.state, storage);
    }
    assert(emitted.values.len() == 1);
    lemma_stored(c, emitted.state, storage, emitted.values, 1);
    let tagged = stored(emitted.state, storage, emitted.values, 1)->0;
    lemma_kept_then(c, s, emitted.state, tagged);
    if countable(tagged) {
        lemma_reachable(emitted.state, tagged, storage);
    }
    lemma_fields_stored(
        c,
        tagged,
        header,
        cell.header@,
        header_offsets(*cell, pointer_bytes),
        slot,
        paired(header.len(), cell.header@.len()),
        pointer_bytes,
    );
    lemma_kept_then(
        c,
        s,
        tagged,
        prefix_stored(s, tag, header, *cell, slot, pointer_bytes)->0,
    );
}

/// Whether a function can be lowered further.
pub open spec fn ready(c: Scope, s: LoweringView) -> bool {
    ok(c, s) && (countable(s) ==> rooted(c, s))
}

/// Whether resolving a place keeps a function sound and leads somewhere.
pub open spec fn found(c: Scope, before: LoweringView, p: PlaceState) -> bool {
    &&& kept(c, before, p.state)
    &&& countable(p.state) ==> reachable(p.state, p.storage)
}

pub(crate) proof fn lemma_ready(c: Scope, s: LoweringView, a: LoweringView)
    requires
        ready(c, s),
        kept(c, s, a),
    ensures
        ready(c, a),
        countable(a) ==> countable(s),
{
    lemma_count(s, a);
    lemma_grows(s, a);
    if countable(a) {
        lemma_rooted(c, s, a);
    }
}

proof fn lemma_first(c: Scope, s: LoweringView, lowered: Option<Lowered>)
    requires
        lowered is Some ==> made(c, s, lowered->0),
        first_of(lowered) is Some,
    ensures
        made(c, s, first_of(lowered)->0),
        countable(first_of(lowered)->0.state) ==> has(
            first_of(lowered)->0.state,
            first_of(lowered)->0.values[0],
        ),
{
    let l = lowered->0;
    if countable(l.state) {
        assert(has(l.state, l.values[0]));
    }
}

proof fn lemma_pointer_wide(c: Scope, s: LoweringView, value: usize, pointer_bytes: u32)
    requires
        ok(c, s),
        countable(s) ==> has(s, value),
        pointer_wide(s, value, pointer_bytes) is Some,
    ensures
        made(c, s, pointer_wide(s, value, pointer_bytes)->0),
        pointer_wide(s, value, pointer_bytes)->0.values.len() == 1,
{
    if s.type_of(value)->0 == pointer_ir(pointer_bytes) {
        lemma_same(c, s);
    } else {
        lemma_define(
            c,
            s,
            Op::Convert { op: Convert::Uextend, value },
            pointer_ir(pointer_bytes),
        );
    }
}

proof fn lemma_element_address(
    c: Scope,
    s: LoweringView,
    base: usize,
    index: usize,
    size: nat,
    pointer_bytes: u32,
)
    requires
        ok(c, s),
        countable(s) ==> has(s, base) && has(s, index),
        element_address(s, base, index, size, pointer_bytes) is Some,
    ensures
        made(c, s, element_address(s, base, index, size, pointer_bytes)->0),
{
    let ptr = pointer_ir(pointer_bytes);
    lemma_pointer_wide(c, s, base, pointer_bytes);
    let wide_base = pointer_wide(s, base, pointer_bytes)->0;
    lemma_count(s, wide_base.state);
    if countable(wide_base.state) {
        lemma_has(s, wide_base.state, index);
    }
    lemma_pointer_wide(c, wide_base.state, index, pointer_bytes);
    let wide_index = pointer_wide(wide_base.state, index, pointer_bytes)->0;
    lemma_made_then(c, s, wide_base.state, wide_index);
    let a = wide_index.state;
    let scale = a.define(Op::Iconst(size as i64), ptr);
    lemma_define(c, a, Op::Iconst(size as i64), ptr);
    lemma_made_then(c, s, a, scale);
    lemma_then(wide_base.state, a, scale.state);
    let product = Op::Binary {
        op: Arith::Imul,
        left: wide_index.values[0],
        right: scale.values[0],
    };
    let along = scale.state.define(product, ptr);
    if countable(scale.state) {
        assert(has(a, wide_index.values[0]));
        lemma_has(a, scale.state, wide_index.values[0]);
    }
    lemma_define(c, scale.state, product, ptr);
    lemma_made_then(c, s, scale.state, along);
    lemma_then(wide_base.state, scale.state, along.state);
    let sum = Op::Binary {
        op: Arith::Iadd,
        left: wide_base.values[0],
        right: along.values[0],
    };
    if countable(along.state) {
        assert(has(wide_base.state, wide_base.values[0]));
        lemma_has(wide_base.state, along.state, wide_base.values[0]);
    }
    lemma_define(c, along.state, sum, ptr);
    lemma_made_then(c, s, along.state, along.state.define(sum, ptr));
}

proof fn lemma_elements_base(
    c: Scope,
    s: LoweringView,
    storage: Storage,
    ty: &ResolvedType,
    pointer_bytes: u32,
)
    requires
        ok(c, s),
        countable(s) ==> reachable(s, storage),
        elements_base(s, storage, *ty, pointer_bytes) is Some,
    ensures
        made(c, s, elements_base(s, storage, *ty, pointer_bytes)->0),
{
    match ty {
        ResolvedType::SizedArray(_, _) => {
            lemma_addressed(c, s, storage, pointer_bytes);
        },
        _ => {
            lemma_loaded(c, s, storage, *ty, pointer_bytes);
            lemma_first(c, s, loaded(s, storage, *ty, pointer_bytes));
        },
    }
}

proof fn lemma_root(c: Scope, root: &MirPlaceRoot, s: LoweringView)
    requires
        ready(c, s),
        root_resolved(c.frame, *root, s) is Some,
    ensures
        found(c, s, root_resolved(c.frame, *root, s)->0),
    decreases root, 0int, 0nat,
{
    match root {
        MirPlaceRoot::Local { id, ty } => {
            lemma_same(c, s);
            if id.0 < c.frame.arg_count && countable(s) {
                assert(have_all(s, c.frame.local_args[id.0 as int]));
            }
        },
        MirPlaceRoot::Function(_) => {},
        MirPlaceRoot::Global { id, ty } => {
            lemma_define(c, s, Op::GlobalAddr(*id), pointer_ir(c.frame.pb()));
        },
        MirPlaceRoot::Expr(expr) => {
            let expr: &MirExprNode = &**expr;
            lemma_expr(c, expr, s);
            let lowered = expr_lowered(c.frame, *expr, s)->0;
            lemma_spilled(c, lowered.state, lowered.values, expr.ty, c.frame.pb());
            let after = spilled(lowered.state, lowered.values, expr.ty, c.frame.pb())->0;
            lemma_kept_then(c, s, lowered.state, after.0);
        },
    }
}

#[verifier::rlimit(60)]
proof fn lemma_projected(c: Scope, p: PlaceState, projection: &MirProjection)
    requires
        ready(c, p.state),
        countable(p.state) ==> reachable(p.state, p.storage),
        projected(c.frame, p, *projection) is Some,
    ensures
        found(c, p.state, projected(c.frame, p, *projection)->0),
    decreases projection, 0int, 0nat,
{
    let pb = c.frame.pb();
    lemma_same(c, p.state);
    match projection {
        MirProjection::FieldAccess { .. } => {},
        MirProjection::UnionField { ty } => match p.storage {
            Storage::Values(values) => {
                lemma_spilled(c, p.state, values, p.ty, pb);
            },
            _ => {},
        },
        MirProjection::Deref { ty } => {
            lemma_loaded(c, p.state, p.storage, p.ty, pb);
            let l = loaded(p.state, p.storage, p.ty, pb)->0;
            if countable(l.state) {
                assert(has(l.state, l.values[0]));
            }
        },
        MirProjection::Index { index_expr, item_type } => {
            let index_expr: &MirExprNode = &**index_expr;
            lemma_elements_base(c, p.state, p.storage, &p.ty, pb);
            let base = elements_base(p.state, p.storage, p.ty, pb)->0;
            lemma_ready(c, p.state, base.state);
            lemma_expr(c, index_expr, base.state);
            let index = expr_lowered(c.frame, *index_expr, base.state)->0;
            lemma_kept_then(c, p.state, base.state, index.state);
            if countable(index.state) {
                assert(has(base.state, base.values[0]));
                lemma_has(base.state, index.state, base.values[0]);
                assert(has(index.state, index.values[0]));
            }
            lemma_element_address(
                c,
                index.state,
                base.values[0],
                index.values[0],
                size_of(*item_type, pb),
                pb,
            );
            let address = element_address(
                index.state,
                base.values[0],
                index.values[0],
                size_of(*item_type, pb),
                pb,
            )->0;
            lemma_made_then(c, p.state, index.state, address);
            if countable(address.state) {
                assert(has(address.state, address.values[0]));
            }
        },
        MirProjection::EnumBody { .. } => match p.storage {
            Storage::Values(values) => {
                lemma_spilled(c, p.state, values, p.ty, pb);
            },
            _ => {},
        },
        _ => {},
    }
}

proof fn lemma_all_projected(
    c: Scope,
    p: PlaceState,
    projections: Seq<MirProjection>,
    n: nat,
)
    requires
        ready(c, p.state),
        countable(p.state) ==> reachable(p.state, p.storage),
        all_projected(c.frame, p, projections, n) is Some,
    ensures
        found(c, p.state, all_projected(c.frame, p, projections, n)->0),
    decreases projections, 0int, n,
{
    if n == 0 || n > projections.len() {
        lemma_same(c, p.state);
    } else {
        lemma_all_projected(c, p, projections, (n - 1) as nat);
        let before = all_projected(c.frame, p, projections, (n - 1) as nat)->0;
        lemma_ready(c, p.state, before.state);
        lemma_projected(c, before, &projections[n - 1]);
        lemma_kept_then(
            c,
            p.state,
            before.state,
            projected(c.frame, before, projections[n - 1])->0.state,
        );
    }
}

proof fn lemma_place(c: Scope, place: &MirPlace, s: LoweringView)
    requires
        ready(c, s),
        place_resolved(c.frame, *place, s) is Some,
    ensures
        found(c, s, place_resolved(c.frame, *place, s)->0),
    decreases place, 0int, 0nat,
{
    lemma_root(c, &place.root, s);
    let root = root_resolved(c.frame, place.root, s)->0;
    lemma_ready(c, s, root.state);
    lemma_all_projected(c, root, place.projections@, place.projections@.len());
    lemma_kept_then(c, s, root.state, place_resolved(c.frame, *place, s)->0.state);
}

proof fn lemma_place_lowered(c: Scope, place: &MirPlace, s: LoweringView)
    requires
        ready(c, s),
        place_lowered(c.frame, *place, s) is Some,
    ensures
        made(c, s, place_lowered(c.frame, *place, s)->0),
    decreases place, 1int, 0nat,
{
    match place.root {
        MirPlaceRoot::Function(id) => {
            lemma_define(c, s, Op::FuncAddr(id), pointer_ir(c.frame.pb()));
        },
        _ => {
            lemma_place(c, place, s);
            let p = place_resolved(c.frame, *place, s)->0;
            lemma_loaded(c, p.state, p.storage, p.ty, c.frame.pb());
            lemma_made_then(
                c,
                s,
                p.state,
                loaded(p.state, p.storage, p.ty, c.frame.pb())->0,
            );
        },
    }
}

proof fn lemma_operated(
    c: Scope,
    s: LoweringView,
    op: BinaryOp,
    kind: NumericKind,
    left: usize,
    right: usize,
)
    requires
        ok(c, s),
        countable(s) ==> has(s, left) && has(s, right),
        operated(s, op, kind, left, right) is Some,
    ensures
        made(c, s, operated(s, op, kind, left, right)->0),
{
    match arith_of(op, kind) {
        Some(arith) => {
            lemma_define_like(c, s, Op::Binary { op: arith, left, right }, left);
        },
        None => match kind {
            NumericKind::Float(_) => {
                lemma_define(c, s, Op::Fcmp { cc: float_cc(op)->0, left, right }, IrType::I8);
            },
            NumericKind::Signed(_) => {
                lemma_define(
                    c,
                    s,
                    Op::Icmp { cc: int_cc(op, true)->0, left, right },
                    IrType::I8,
                );
            },
            NumericKind::Unsigned(_) => {
                lemma_define(
                    c,
                    s,
                    Op::Icmp { cc: int_cc(op, false)->0, left, right },
                    IrType::I8,
                );
            },
        },
    }
}

proof fn lemma_promoted(
    c: Scope,
    s: LoweringView,
    value: usize,
    ty: ResolvedType,
    pointer_bits: u32,
)
    requires
        ok(c, s),
        countable(s) ==> has(s, value),
    ensures
        made(c, s, variadic_promoted(s, value, ty, pointer_bits)),
{
    match promoted(ty, pointer_bits) {
        Some(NumericKind::Float(_)) => {
            lemma_define(c, s, Op::Convert { op: Convert::Fpromote, value }, IrType::F64);
        },
        Some(NumericKind::Signed(_)) => {
            lemma_define(c, s, Op::Convert { op: Convert::Sextend, value }, IrType::I32);
        },
        Some(NumericKind::Unsigned(_)) => {
            lemma_define(c, s, Op::Convert { op: Convert::Uextend, value }, IrType::I32);
        },
        None => {
            lemma_same(c, s);
        },
    }
}

pub(crate) proof fn lemma_passed(c: Scope, s: LoweringView, values: Seq<usize>, n: nat)
    requires
        ok(c, s),
        n <= values.len(),
        countable(s) ==> have_all(s, values),
    ensures
        kept(c, s, passed(s, values, n)),
        passed(s, values, n).steps.len() == s.steps.len() + n,
        forall|k: int|
            s.steps.len() <= k < s.steps.len() + n ==> (#[trigger] passed(
                s,
                values,
                n,
            ).steps[k]).op is Pass,
        countable(passed(s, values, n)) ==> passed_last(passed(s, values, n), n as usize),
    decreases n,
{
    if n == 0 {
        lemma_same(c, s);
    } else {
        lemma_passed(c, s, values, (n - 1) as nat);
        let before = passed(s, values, (n - 1) as nat);
        lemma_count(s, before);
        if countable(before) {
            lemma_has(s, before, values[n - 1]);
        }
        lemma_push(c, before, Op::Pass(values[n - 1]), None);
        lemma_kept_then(c, s, before, before.push(Op::Pass(values[n - 1]), None));
    }
}

proof fn lemma_results(
    c: Scope,
    s: LoweringView,
    call: usize,
    leaves: Seq<Leaf>,
    pointer_bytes: u32,
    n: nat,
)
    requires
        ok(c, s),
        countable(s) ==> is_call(s, call),
    ensures
        made(c, s, results(s, call, leaves, pointer_bytes, n)),
        countable(results(s, call, leaves, pointer_bytes, n).state) ==> is_call(
            results(s, call, leaves, pointer_bytes, n).state,
            call,
        ),
    decreases n,
{
    if n == 0 {
        lemma_same(c, s);
    } else {
        lemma_results(c, s, call, leaves, pointer_bytes, (n - 1) as nat);
        let before = results(s, call, leaves, pointer_bytes, (n - 1) as nat);
        let op = Op::CallResult { call, index: (n - 1) as usize };
        let ty = leaf_ir(leaves[n - 1], pointer_bytes);
        let after = before.state.push(op, Some(ty));
        lemma_define(c, before.state, op, ty);
        lemma_kept_then(c, s, before.state, after);
        if countable(after) {
            lemma_have(before.state, after, before.values);
        }
    }
}

proof fn lemma_called(
    c: Scope,
    s: LoweringView,
    callee: usize,
    fn_type: Rc<ResolvedFunctionType>,
    args: Seq<usize>,
    pointer_bytes: u32,
)
    requires
        ok(c, s),
        countable(s) ==> has(s, callee) && have_all(s, args),
        called(s, callee, fn_type, args, pointer_bytes) is Some,
    ensures
        made(c, s, called(s, callee, fn_type, args, pointer_bytes)->0),
{
    let ret: &ResolvedType = &*fn_type.return_type;
    if returns_indirectly(*ret, pointer_bytes) {
        let slot = s.next_slot();
        let storage = Storage::Slot { slot, offset: 0 };
        let data = slot_for(*ret, pointer_bytes);
        let room = s.with_slot(data);
        lemma_slot(c, s, data);
        let op = Op::StackAddr { slot, offset: 0 };
        let address = room.define(op, pointer_ir(pointer_bytes));
        lemma_define(c, room, op, pointer_ir(pointer_bytes));
        lemma_made_then(c, s, room, address);
        let all = address.values + args;
        if countable(address.state) {
            lemma_have(s, address.state, args);
            assert forall|i: int| 0 <= i < all.len() implies has(
                address.state,
                #[trigger] all[i],
            ) by {
                if i > 0 {
                    assert(all[i] == args[i - 1]);
                }
            }
        }
        lemma_passed(c, address.state, all, all.len());
        let ready = passed(address.state, all, all.len());
        lemma_kept_then(c, s, address.state, ready);
        lemma_then(room, address.state, ready);
        if countable(ready) {
            lemma_has(s, ready, callee);
            lemma_reachable(room, ready, storage);
        }
        let call = Op::CallIndirect { callee, fn_type, count: all.len() as usize };
        let done = ready.push(call, None);
        lemma_push(c, ready, call, None);
        lemma_kept_then(c, s, ready, done);
        if countable(done) {
            lemma_reachable(ready, done, storage);
        }
        lemma_loaded(c, done, storage, *ret, pointer_bytes);
        lemma_made_then(c, s, done, loaded(done, storage, *ret, pointer_bytes)->0);
    } else {
        lemma_passed(c, s, args, args.len());
        let ready = passed(s, args, args.len());
        lemma_count(s, ready);
        if countable(ready) {
            lemma_has(s, ready, callee);
        }
        let call = Op::CallIndirect { callee, fn_type, count: args.len() as usize };
        let done = ready.push(call, None);
        lemma_push(c, ready, call, None);
        lemma_kept_then(c, s, ready, done);
        match returned(*ret, pointer_bytes) {
            ReturnView::Direct(leaves) => {
                lemma_results(c, done, ready.next(), leaves, pointer_bytes, leaves.len());
                lemma_made_then(
                    c,
                    s,
                    done,
                    results(done, ready.next(), leaves, pointer_bytes, leaves.len()),
                );
            },
            _ => {},
        }
    }
}

proof fn lemma_table_address(
    c: Scope,
    s: LoweringView,
    concrete: ResolvedType,
    object: ResolvedType,
    slots: Rc<Vec<HirId>>,
)
    requires
        ok(c, s),
        table_address(c.frame, s, concrete, object, slots) is Some,
    ensures
        made(c, s, table_address(c.frame, s, concrete, object, slots)->0),
{
    let ptr = pointer_ir(c.frame.pb());
    lemma_table_found(s.vtables, slots@, 0);
    match table_position(s.vtables, slots@, 0) {
        Some(index) => {
            lemma_define(c, s, Op::VtableAddr(index as usize), ptr);
        },
        None => {
            let table = Vtable { concrete, object, slots };
            let wider = LoweringView { vtables: s.vtables.push(table), ..s };
            lemma_table(c, s, table);
            let op = Op::VtableAddr(s.vtables.len() as usize);
            lemma_define(c, wider, op, ptr);
            lemma_made_then(c, s, wider, wider.define(op, ptr));
        },
    }
}

proof fn lemma_args(
    c: Scope,
    args: Seq<MirExprNode>,
    fn_type: ResolvedFunctionType,
    s: LoweringView,
    n: nat,
)
    requires
        ready(c, s),
        args_lowered(c.frame, args, fn_type, s, n) is Some,
    ensures
        made(c, s, args_lowered(c.frame, args, fn_type, s, n)->0),
    decreases args, 0int, n,
{
    if n == 0 || n > args.len() {
        lemma_same(c, s);
    } else {
        lemma_args(c, args, fn_type, s, (n - 1) as nat);
        let before = args_lowered(c.frame, args, fn_type, s, (n - 1) as nat)->0;
        lemma_ready(c, s, before.state);
        lemma_expr(c, &args[n - 1], before.state);
        let arg = expr_lowered(c.frame, args[n - 1], before.state)->0;
        let bits = (c.frame.pb() * 8) as u32;
        if fn_type.is_variadic && n - 1 >= fn_type.params@.len() && arg.values.len() == 1 {
            if countable(arg.state) {
                assert(has(arg.state, arg.values[0]));
            }
            lemma_promoted(c, arg.state, arg.values[0], args[n - 1].ty, bits);
            let last = variadic_promoted(arg.state, arg.values[0], args[n - 1].ty, bits);
            lemma_made_then(c, before.state, arg.state, last);
            lemma_append(c, s, before, last);
        } else {
            lemma_append(c, s, before, arg);
        }
    }
}

proof fn lemma_nodes(c: Scope, nodes: Seq<MirExprNode>, s: LoweringView, n: nat)
    requires
        ready(c, s),
        nodes_lowered(c.frame, nodes, s, n) is Some,
    ensures
        made(c, s, nodes_lowered(c.frame, nodes, s, n)->0),
    decreases nodes, 0int, n,
{
    if n == 0 || n > nodes.len() {
        lemma_same(c, s);
    } else {
        lemma_nodes(c, nodes, s, (n - 1) as nat);
        let before = nodes_lowered(c.frame, nodes, s, (n - 1) as nat)->0;
        lemma_ready(c, s, before.state);
        lemma_expr(c, &nodes[n - 1], before.state);
        lemma_append(c, s, before, expr_lowered(c.frame, nodes[n - 1], before.state)->0);
    }
}

/// Whether what each field was given has been defined.
pub open spec fn given_all(s: LoweringView, per_field: Seq<Option<Seq<usize>>>) -> bool {
    forall|i: int|
        0 <= i < per_field.len() ==> match #[trigger] per_field[i] {
            Some(values) => have_all(s, values),
            None => true,
        }
}

proof fn lemma_given(a: LoweringView, b: LoweringView, per_field: Seq<Option<Seq<usize>>>)
    requires
        follows(a, b),
        given_all(a, per_field),
    ensures
        given_all(b, per_field),
{
    assert forall|i: int| 0 <= i < per_field.len() implies match #[trigger] per_field[i] {
        Some(values) => have_all(b, values),
        None => true,
    } by {
        match per_field[i] {
            Some(values) => {
                lemma_have(a, b, values);
            },
            None => {},
        }
    }
}

proof fn lemma_gathered(
    c: Scope,
    fields: Seq<MirFieldValue>,
    count: nat,
    s: LoweringView,
    n: nat,
)
    requires
        ready(c, s),
        fields_gathered(c.frame, fields, count, s, n) is Some,
    ensures
        ({
            let (after, per_field) = fields_gathered(c.frame, fields, count, s, n)->0;
            kept(c, s, after) && (countable(after) ==> given_all(after, per_field))
                && per_field.len() == count
        }),
    decreases fields, 0int, n,
{
    if n == 0 || n > fields.len() {
        lemma_same(c, s);
    } else {
        lemma_gathered(c, fields, count, s, (n - 1) as nat);
        let (before, per_field) = fields_gathered(c.frame, fields, count, s, (n - 1) as nat)->0;
        lemma_ready(c, s, before);
        lemma_expr(c, &fields[n - 1].value, before);
        let last = expr_lowered(c.frame, fields[n - 1].value, before)->0;
        lemma_kept_then(c, s, before, last.state);
        if countable(last.state) {
            lemma_given(before, last.state, per_field);
        }
    }
}

proof fn lemma_flattened(s: LoweringView, per_field: Seq<Option<Seq<usize>>>, n: nat)
    requires
        given_all(s, per_field),
        n <= per_field.len(),
        flattened(per_field, n) is Some,
    ensures
        have_all(s, flattened(per_field, n)->0),
    decreases n,
{
    if n > 0 {
        lemma_flattened(s, per_field, (n - 1) as nat);
        let before = flattened(per_field, (n - 1) as nat)->0;
        let last = per_field[n - 1]->0;
        let all = before + last;
        assert forall|i: int| 0 <= i < all.len() implies has(s, #[trigger] all[i]) by {
            if i < before.len() {
                assert(all[i] == before[i]);
            } else {
                assert(all[i] == last[i - before.len()]);
            }
        }
    }
}

proof fn lemma_placed(
    c: Scope,
    fields: Seq<MirFieldValue>,
    offsets: Seq<nat>,
    slot: usize,
    s: LoweringView,
    n: nat,
)
    requires
        ready(c, s),
        countable(s) ==> slot < s.slots.len(),
        fields_placed(c.frame, fields, offsets, slot, s, n) is Some,
    ensures
        kept(c, s, fields_placed(c.frame, fields, offsets, slot, s, n)->0),
    decreases fields, 0int, n,
{
    if n == 0 || n > fields.len() {
        lemma_same(c, s);
    } else {
        lemma_placed(c, fields, offsets, slot, s, (n - 1) as nat);
        let before = fields_placed(c.frame, fields, offsets, slot, s, (n - 1) as nat)->0;
        lemma_ready(c, s, before);
        lemma_expr(c, &fields[n - 1].value, before);
        let last = expr_lowered(c.frame, fields[n - 1].value, before)->0;
        lemma_kept_then(c, s, before, last.state);
        let offset = moved(0, offsets[fields[n - 1].field_index as int])->0;
        let storage = Storage::Slot { slot, offset };
        if countable(last.state) {
            lemma_reachable(s, last.state, storage);
        }
        lemma_stored(c, last.state, storage, last.values, last.values.len());
        lemma_kept_then(
            c,
            s,
            last.state,
            stored(last.state, storage, last.values, last.values.len())->0,
        );
    }
}

proof fn lemma_pair(c: Scope, s: LoweringView, a: Lowered, b: Lowered, first: usize, second: usize)
    requires
        made(c, s, a),
        made(c, a.state, b),
        countable(a.state) ==> has(a.state, first),
        countable(b.state) ==> has(b.state, second),
    ensures
        made(c, s, Lowered { values: seq![first, second], ..b }),
{
    lemma_made_then(c, s, a.state, b);
    if countable(b.state) {
        lemma_has(a.state, b.state, first);
    }
}

proof fn lemma_sequence_parts(c: Scope, p: PlaceState, pointer_bytes: u32)
    requires
        ok(c, p.state),
        countable(p.state) ==> reachable(p.state, p.storage),
        sequence_parts(p, pointer_bytes) is Some,
    ensures
        made(c, p.state, sequence_parts(p, pointer_bytes)->0),
        sequence_parts(p, pointer_bytes)->0.values.len() == 2,
{
    match p.ty {
        ResolvedType::SizedArray(_, size) => {
            lemma_addressed(c, p.state, p.storage, pointer_bytes);
            let address = addressed(p.state, p.storage, pointer_bytes)->0;
            let op = Op::Iconst(size as i64);
            lemma_define(c, address.state, op, IrType::I32);
            let length = address.state.define(op, IrType::I32);
            lemma_append(c, p.state, address, length);
        },
        ResolvedType::Array(_, _) => {
            lemma_loaded(c, p.state, p.storage, p.ty, pointer_bytes);
            let l = loaded(p.state, p.storage, p.ty, pointer_bytes)->0;
            lemma_define(c, l.state, Op::Iconst(0), IrType::I32);
            let length = l.state.define(Op::Iconst(0), IrType::I32);
            if countable(l.state) {
                assert(has(l.state, l.values[0]));
            }
            lemma_pair(c, p.state, l, length, l.values[0], length.values[0]);
        },
        _ => {
            lemma_loaded(c, p.state, p.storage, p.ty, pointer_bytes);
            let l = loaded(p.state, p.storage, p.ty, pointer_bytes)->0;
            if countable(l.state) {
                assert(has(l.state, l.values[0]));
                assert(has(l.state, l.values[1]));
            }
        },
    }
}

proof fn lemma_bound(c: Scope, bound: &Option<Box<MirExprNode>>, s: LoweringView)
    requires
        ready(c, s),
        bound_lowered(c.frame, *bound, s) is Some,
    ensures
        made(c, s, bound_lowered(c.frame, *bound, s)->0),
        bound_lowered(c.frame, *bound, s)->0.values.len() == 1,
    decreases bound, 0int, 0nat,
{
    match bound {
        Some(expr) => {
            let expr: &MirExprNode = &**expr;
            let lowered = expr_lowered(c.frame, *expr, s);
            lemma_expr(c, expr, s);
            lemma_first(c, s, lowered);
        },
        None => {
            lemma_define(c, s, Op::Iconst(0), IrType::I32);
        },
    }
}

proof fn lemma_end(
    c: Scope,
    bound: &Option<Box<MirExprNode>>,
    inclusive: bool,
    length: usize,
    s: LoweringView,
)
    requires
        ready(c, s),
        countable(s) ==> has(s, length),
        end_lowered(c.frame, *bound, inclusive, length, s) is Some,
    ensures
        made(c, s, end_lowered(c.frame, *bound, inclusive, length, s)->0),
        end_lowered(c.frame, *bound, inclusive, length, s)->0.values.len() == 1,
    decreases bound, 0int, 0nat,
{
    match bound {
        Some(expr) => {
            let expr: &MirExprNode = &**expr;
            let lowered = expr_lowered(c.frame, *expr, s);
            lemma_expr(c, expr, s);
            lemma_first(c, s, lowered);
            let end = first_of(lowered)->0;
            if inclusive {
                let op = Op::IaddImm { value: end.values[0], imm: 1 };
                lemma_define_like(c, end.state, op, end.values[0]);
                lemma_made_then(
                    c,
                    s,
                    end.state,
                    end.state.define_like(op, end.values[0])->0,
                );
            }
        },
        None => {
            lemma_same(c, s);
        },
    }
}

proof fn lemma_sliced(
    c: Scope,
    s: LoweringView,
    data: usize,
    start: usize,
    end: usize,
    size: nat,
    pointer_bytes: u32,
)
    requires
        ok(c, s),
        countable(s) ==> has(s, data) && has(s, start) && has(s, end),
        sliced(s, data, start, end, size, pointer_bytes) is Some,
    ensures
        made(c, s, sliced(s, data, start, end, size, pointer_bytes)->0),
{
    let ptr = pointer_ir(pointer_bytes);
    lemma_pointer_wide(c, s, start, pointer_bytes);
    let wide = pointer_wide(s, start, pointer_bytes)->0;
    let scale = wide.state.define(Op::Iconst(size as i64), ptr);
    lemma_define(c, wide.state, Op::Iconst(size as i64), ptr);
    lemma_made_then(c, s, wide.state, scale);
    let product = Op::Binary { op: Arith::Imul, left: wide.values[0], right: scale.values[0] };
    if countable(scale.state) {
        assert(has(wide.state, wide.values[0]));
        lemma_has(wide.state, scale.state, wide.values[0]);
    }
    let along = scale.state.define(product, ptr);
    lemma_define(c, scale.state, product, ptr);
    lemma_made_then(c, s, scale.state, along);
    if countable(along.state) {
        lemma_has(s, along.state, data);
    }
    let sum = Op::Binary { op: Arith::Iadd, left: data, right: along.values[0] };
    lemma_define_like(c, along.state, sum, data);
    let pointer = along.state.define_like(sum, data)->0;
    lemma_made_then(c, s, along.state, pointer);
    if countable(pointer.state) {
        lemma_has(s, pointer.state, end);
        lemma_has(s, pointer.state, start);
    }
    let difference = Op::Binary { op: Arith::Isub, left: end, right: start };
    lemma_define_like(c, pointer.state, difference, end);
    lemma_append(c, s, pointer, pointer.state.define_like(difference, end)->0);
}

proof fn lemma_converted(
    c: Scope,
    s: LoweringView,
    base: Lowered,
    kind: CastKind,
    source: ResolvedType,
    target: IrType,
    pointer_bytes: u32,
)
    requires
        made(c, s, base),
        converted(base, kind, source, target, pointer_bytes) is Some,
    ensures
        made(c, s, converted(base, kind, source, target, pointer_bytes)->0),
{
    if countable(base.state) {
        if base.values.len() > 0 {
            assert(has(base.state, base.values[0]));
        }
        if base.values.len() > 1 {
            assert(has(base.state, base.values[1]));
        }
    }
    match kind {
        CastKind::Reinterpret => {},
        CastKind::DropLength => {},
        CastKind::Unsize => {
            let op = Op::Iconst(unsized_length(source)->0 as i64);
            lemma_define(c, base.state, op, IrType::I32);
            let length = base.state.define(op, IrType::I32);
            lemma_pair(c, s, base, length, base.values[0], length.values[0]);
        },
        CastKind::SpecNarrow { slot_offset } => {
            let op = Op::IaddImm {
                value: base.values[1],
                imm: (slot_offset * pointer_bytes) as i64,
            };
            lemma_define_like(c, base.state, op, base.values[1]);
            let table = base.state.define_like(op, base.values[1])->0;
            if countable(table.state) {
                assert(has(table.state, table.values[0]));
            }
            lemma_pair(c, s, base, table, base.values[0], table.values[0]);
        },
        _ => {
            let op = Op::Convert { op: conversion(kind)->0, value: base.values[0] };
            lemma_define(c, base.state, op, target);
            lemma_made_then(c, s, base.state, base.state.define(op, target));
        },
    }
}

proof fn lemma_constructed(
    c: Scope,
    construct: &MirEnumConstruct,
    ty: &ResolvedType,
    s: LoweringView,
)
    requires
        ready(c, s),
        constructed(c.frame, *construct, *ty, s) is Some,
    ensures
        made(c, s, constructed(c.frame, *construct, *ty, s)->0),
    decreases construct, 0int, 0nat,
{
    let pb = c.frame.pb();
    match ty {
        ResolvedType::Enum { cell, .. } => {
            let cell: &ResolvedEnumType = &**cell;
            let variant = cell.variants@[construct.variant_index as int];
            let slot = s.next_slot();
            let storage = Storage::Slot { slot, offset: 0 };
            let cleared = chunks(payload_width(*cell, pb));
            let data = slot_for(*ty, pb);
            let room = s.with_slot(data);
            lemma_slot(c, s, data);
            lemma_prefix(c, room, variant.tag, variant.header_values@, cell, slot, pb);
            let headed = prefix_stored(
                room,
                variant.tag,
                variant.header_values@,
                *cell,
                slot,
                pb,
            )->0;
            lemma_kept_then(c, s, room, headed);
            if countable(headed) {
                lemma_reachable(room, headed, storage);
            }
            let at = payload_of(*cell, pb) as u32;
            lemma_zero_filled(c, headed, cleared, slot, at, pb, cleared.len());
            let empty = zero_filled(headed, cleared, slot, at, pb, cleared.len())->0;
            lemma_kept_then(c, s, headed, empty);
            if countable(empty) {
                lemma_reachable(headed, empty, storage);
            }
            lemma_ready(c, s, empty);
            let offsets = dynamic_offsets(*cell, pb) + body_offsets(
                *cell,
                construct.variant_index as int,
                pb,
            );
            lemma_placed(
                c,
                construct.fields@,
                offsets,
                slot,
                empty,
                construct.fields@.len(),
            );
            let whole = fields_placed(
                c.frame,
                construct.fields@,
                offsets,
                slot,
                empty,
                construct.fields@.len(),
            )->0;
            lemma_kept_then(c, s, empty, whole);
            if countable(whole) {
                lemma_reachable(empty, whole, storage);
            }
            lemma_loaded(c, whole, storage, *ty, pb);
            lemma_made_then(c, s, whole, loaded(whole, storage, *ty, pb)->0);
        },
        _ => {},
    }
}

proof fn lemma_call(c: Scope, call: &MirFunctionCall, s: LoweringView)
    requires
        ready(c, s),
        call_lowered(c.frame, *call, s) is Some,
    ensures
        made(c, s, call_lowered(c.frame, *call, s)->0),
    decreases call, 0int, 0nat,
{
    let target: &MirExprNode = &*call.callee;
    let fn_type: &ResolvedFunctionType = &*call.fn_type;
    let lowered = expr_lowered(c.frame, *target, s);
    lemma_expr(c, target, s);
    lemma_first(c, s, lowered);
    let callee = first_of(lowered)->0;
    lemma_ready(c, s, callee.state);
    lemma_args(c, call.args@, *fn_type, callee.state, call.args@.len());
    let args = args_lowered(c.frame, call.args@, *fn_type, callee.state, call.args@.len())->0;
    lemma_made_then(c, s, callee.state, args);
    if countable(args.state) {
        lemma_has(callee.state, args.state, callee.values[0]);
    }
    lemma_called(
        c,
        args.state,
        callee.values[0],
        call.fn_type,
        args.values,
        c.frame.pb(),
    );
    lemma_made_then(
        c,
        s,
        args.state,
        called(args.state, callee.values[0], call.fn_type, args.values, c.frame.pb())->0,
    );
}

proof fn lemma_coerce(c: Scope, coerce: &MirSpecCoerce, ty: &ResolvedType, s: LoweringView)
    requires
        ready(c, s),
        coerce_lowered(c.frame, *coerce, *ty, s) is Some,
    ensures
        made(c, s, coerce_lowered(c.frame, *coerce, *ty, s)->0),
    decreases coerce, 0int, 0nat,
{
    let base: &MirExprNode = &*coerce.base;
    match &base.ty {
        ResolvedType::Pointer { pointee, .. } => {
            let pointee: &ResolvedType = &**pointee;
            let lowered = expr_lowered(c.frame, *base, s);
            lemma_expr(c, base, s);
            lemma_first(c, s, lowered);
            let data = first_of(lowered)->0;
            lemma_table_address(c, data.state, *pointee, *ty, coerce.slots);
            lemma_append(
                c,
                s,
                data,
                table_address(c.frame, data.state, *pointee, *ty, coerce.slots)->0,
            );
        },
        _ => {},
    }
}

proof fn lemma_dynamic(c: Scope, call: &MirDynamicCall, s: LoweringView)
    requires
        ready(c, s),
        dynamic_lowered(c.frame, *call, s) is Some,
    ensures
        made(c, s, dynamic_lowered(c.frame, *call, s)->0),
    decreases call, 0int, 0nat,
{
    let pb = c.frame.pb();
    lemma_place_lowered(c, &call.base, s);
    let base = place_lowered(c.frame, call.base, s)->0;
    if countable(base.state) {
        assert(has(base.state, base.values[0]));
        assert(has(base.state, base.values[1]));
    }
    let op = Op::Load {
        base: base.values[1],
        offset: moved(0, (call.slot_index * pb) as nat)->0,
    };
    lemma_define(c, base.state, op, pointer_ir(pb));
    let entry = base.state.define(op, pointer_ir(pb));
    lemma_made_then(c, s, base.state, entry);
    lemma_ready(c, s, entry.state);
    lemma_nodes(c, call.args@, entry.state, call.args@.len());
    let args = nodes_lowered(c.frame, call.args@, entry.state, call.args@.len())->0;
    lemma_made_then(c, s, entry.state, args);
    lemma_then(base.state, entry.state, args.state);
    let all = seq![base.values[0]] + args.values;
    if countable(args.state) {
        assert(has(entry.state, entry.values[0]));
        lemma_has(entry.state, args.state, entry.values[0]);
        lemma_has(base.state, args.state, base.values[0]);
        assert forall|i: int| 0 <= i < all.len() implies has(args.state, #[trigger] all[i]) by {
            if i > 0 {
                assert(all[i] == args.values[i - 1]);
            }
        }
    }
    lemma_called(c, args.state, entry.values[0], call.fn_type, all, pb);
    lemma_made_then(
        c,
        s,
        args.state,
        called(args.state, entry.values[0], call.fn_type, all, pb)->0,
    );
}

proof fn lemma_binary(c: Scope, binary: &MirBinaryOp, s: LoweringView)
    requires
        ready(c, s),
        binary_lowered(c.frame, *binary, s) is Some,
    ensures
        made(c, s, binary_lowered(c.frame, *binary, s)->0),
    decreases binary, 0int, 0nat,
{
    let left_node: &MirExprNode = &*binary.left;
    let right_node: &MirExprNode = &*binary.right;
    let kind = operand_kind(left_node.ty, (c.frame.pb() * 8) as u32)->0;
    let first = expr_lowered(c.frame, *left_node, s);
    lemma_expr(c, left_node, s);
    lemma_first(c, s, first);
    let left = first_of(first)->0;
    lemma_ready(c, s, left.state);
    let second = expr_lowered(c.frame, *right_node, left.state);
    lemma_expr(c, right_node, left.state);
    lemma_first(c, left.state, second);
    let right = first_of(second)->0;
    lemma_made_then(c, s, left.state, right);
    if countable(right.state) {
        lemma_has(left.state, right.state, left.values[0]);
    }
    lemma_operated(c, right.state, binary.op, kind, left.values[0], right.values[0]);
    lemma_made_then(
        c,
        s,
        right.state,
        operated(right.state, binary.op, kind, left.values[0], right.values[0])->0,
    );
}

proof fn lemma_struct(c: Scope, fields: Seq<MirFieldValue>, ty: &ResolvedType, s: LoweringView)
    requires
        ready(c, s),
        struct_lowered(c.frame, fields, *ty, s) is Some,
    ensures
        made(c, s, struct_lowered(c.frame, fields, *ty, s)->0),
    decreases fields, 1int, 0nat,
{
    match ty {
        ResolvedType::Struct(cell) => {
            let count = cell.fields@.len();
            lemma_gathered(c, fields, count, s, fields.len());
            let (after, per_field) = fields_gathered(c.frame, fields, count, s, fields.len())->0;
            if countable(after) {
                lemma_flattened(after, per_field, per_field.len());
            }
        },
        _ => {},
    }
}

proof fn lemma_union(c: Scope, field: &MirFieldValue, ty: &ResolvedType, s: LoweringView)
    requires
        ready(c, s),
        union_lowered(c.frame, *field, *ty, s) is Some,
    ensures
        made(c, s, union_lowered(c.frame, *field, *ty, s)->0),
    decreases field, 0int, 0nat,
{
    let pb = c.frame.pb();
    let slot = s.next_slot();
    let storage = Storage::Slot { slot, offset: 0 };
    let leaves = leaves_spec(*ty, pb);
    let data = SlotData { size: size_of(*ty, pb) as u32, align_shift: 4 };
    let room = s.with_slot(data);
    lemma_slot(c, s, data);
    lemma_zero_filled(c, room, leaves, slot, 0, pb, leaves.len());
    let empty = zero_filled(room, leaves, slot, 0, pb, leaves.len())->0;
    lemma_kept_then(c, s, room, empty);
    if countable(empty) {
        lemma_reachable(room, empty, storage);
    }
    lemma_ready(c, s, empty);
    lemma_expr(c, &field.value, empty);
    let value = expr_lowered(c.frame, field.value, empty)->0;
    lemma_made_then(c, s, empty, value);
    if countable(value.state) {
        lemma_reachable(empty, value.state, storage);
    }
    lemma_stored(c, value.state, storage, value.values, value.values.len());
    let whole = stored(value.state, storage, value.values, value.values.len())->0;
    lemma_kept_then(c, s, value.state, whole);
    if countable(whole) {
        lemma_reachable(value.state, whole, storage);
    }
    lemma_loaded(c, whole, storage, *ty, pb);
    lemma_made_then(c, s, whole, loaded(whole, storage, *ty, pb)->0);
}

proof fn lemma_slice_of(c: Scope, slice: &MirSlice, s: LoweringView, parts: Lowered)
    requires
        ready(c, s),
        made(c, s, parts),
        parts.values.len() == 2,
        slice_of(c.frame, *slice, parts) is Some,
    ensures
        made(c, s, slice_of(c.frame, *slice, parts)->0),
    decreases slice, 0int, 0nat,
{
    let pb = c.frame.pb();
    lemma_ready(c, s, parts.state);
    if countable(parts.state) {
        assert(has(parts.state, parts.values[0]));
        assert(has(parts.state, parts.values[1]));
    }
    lemma_bound(c, &slice.start, parts.state);
    let start = bound_lowered(c.frame, slice.start, parts.state)->0;
    lemma_ready(c, parts.state, start.state);
    if countable(start.state) {
        assert(has(start.state, start.values[0]));
        lemma_has(parts.state, start.state, parts.values[1]);
    }
    lemma_end(c, &slice.end, slice.inclusive, parts.values[1], start.state);
    let end = end_lowered(c.frame, slice.end, slice.inclusive, parts.values[1], start.state)->0;
    lemma_made_then(c, parts.state, start.state, end);
    lemma_made_then(c, s, parts.state, end);
    if countable(end.state) {
        assert(has(end.state, end.values[0]));
        lemma_has(start.state, end.state, start.values[0]);
        lemma_has(parts.state, end.state, parts.values[0]);
    }
    let size = size_of(slice.item_type, pb);
    lemma_sliced(c, end.state, parts.values[0], start.values[0], end.values[0], size, pb);
    lemma_made_then(
        c,
        s,
        end.state,
        sliced(end.state, parts.values[0], start.values[0], end.values[0], size, pb)->0,
    );
}

proof fn lemma_slice(c: Scope, slice: &MirSlice, s: LoweringView)
    requires
        ready(c, s),
        slice_lowered(c.frame, *slice, s) is Some,
    ensures
        made(c, s, slice_lowered(c.frame, *slice, s)->0),
    decreases slice, 1int, 0nat,
{
    lemma_place(c, &slice.base, s);
    let base = place_resolved(c.frame, slice.base, s)->0;
    lemma_sequence_parts(c, base, c.frame.pb());
    let parts = sequence_parts(base, c.frame.pb())->0;
    lemma_made_then(c, s, base.state, parts);
    lemma_slice_of(c, slice, s, parts);
}

proof fn lemma_cast(c: Scope, cast: &MirCast, s: LoweringView)
    requires
        ready(c, s),
        cast_lowered(c.frame, *cast, s) is Some,
    ensures
        made(c, s, cast_lowered(c.frame, *cast, s)->0),
    decreases cast, 0int, 0nat,
{
    let node: &MirExprNode = &*cast.base;
    let pb = c.frame.pb();
    lemma_expr(c, node, s);
    let base = expr_lowered(c.frame, *node, s)->0;
    lemma_converted(
        c,
        s,
        base,
        cast.kind,
        node.ty,
        leaf_ir(leaves_spec(cast.target_type, pb)[0], pb),
        pb,
    );
}

/// Lowering an expression keeps a function sound, and the expression's values
/// are defined.
#[verifier::rlimit(60)]
pub(crate) proof fn lemma_expr(c: Scope, node: &MirExprNode, s: LoweringView)
    requires
        ready(c, s),
        expr_lowered(c.frame, *node, s) is Some,
    ensures
        made(c, s, expr_lowered(c.frame, *node, s)->0),
    decreases node, 0int, 0nat,
{
    let pb = c.frame.pb();
    match &node.kind {
        MirExpr::Str(text) => {
            lemma_bytes(c, s, text@, pb);
        },
        MirExpr::ByteString(text) => {
            lemma_bytes(c, s, text@, pb);
        },
        MirExpr::Const(value) => {
            let value: &ConstValue = &**value;
            lemma_const(c, s, *value, &node.ty, pb);
        },
        MirExpr::InlineAsm(_) => {},
        MirExpr::FunctionCall(call) => {
            lemma_call(c, call, s);
        },
        MirExpr::SpecCoerce(coerce) => {
            lemma_coerce(c, coerce, &node.ty, s);
        },
        MirExpr::DynamicCall(call) => {
            lemma_dynamic(c, call, s);
        },
        MirExpr::Number(number) => {
            lemma_number(c, s, *number, leaf_ir(leaves_spec(node.ty, pb)[0], pb));
        },
        MirExpr::Bool(flag) => {
            let bit: i64 = if *flag {
                1
            } else {
                0
            };
            lemma_define(c, s, Op::Iconst(bit), IrType::I8);
        },
        MirExpr::Sizeof(ty) => {
            lemma_define(c, s, Op::Iconst(size_of(*ty, pb) as i64), pointer_ir(pb));
        },
        MirExpr::Char(ch) => {
            lemma_define(c, s, Op::Iconst(*ch as i64), IrType::I32);
        },
        MirExpr::Place(place) => {
            lemma_place_lowered(c, place, s);
        },
        MirExpr::Assignment(assignment) => {
            let source: &MirExprNode = &*assignment.value;
            lemma_expr(c, source, s);
            let value = expr_lowered(c.frame, *source, s)->0;
            lemma_ready(c, s, value.state);
            lemma_place(c, &assignment.target, value.state);
            let target = place_resolved(c.frame, assignment.target, value.state)->0;
            lemma_kept_then(c, s, value.state, target.state);
            if countable(target.state) {
                lemma_have(value.state, target.state, value.values);
            }
            lemma_stored(c, target.state, target.storage, value.values, value.values.len());
            let after = stored(
                target.state,
                target.storage,
                value.values,
                value.values.len(),
            )->0;
            lemma_kept_then(c, s, target.state, after);
            if countable(after) {
                lemma_have(target.state, after, value.values);
            }
        },
        MirExpr::AddressOf(place) => {
            lemma_place(c, place, s);
            let p = place_resolved(c.frame, *place, s)->0;
            lemma_addressed(c, p.state, p.storage, pb);
            lemma_made_then(c, s, p.state, addressed(p.state, p.storage, pb)->0);
        },
        MirExpr::Negate(base) => {
            let base: &MirExprNode = &**base;
            let lowered = expr_lowered(c.frame, *base, s);
            lemma_expr(c, base, s);
            lemma_first(c, s, lowered);
            let value = first_of(lowered)->0;
            let op = if is_float(base.ty, (pb * 8) as u32) {
                Op::Fneg(value.values[0])
            } else {
                Op::Ineg(value.values[0])
            };
            lemma_define_like(c, value.state, op, value.values[0]);
            lemma_made_then(
                c,
                s,
                value.state,
                value.state.define_like(op, value.values[0])->0,
            );
        },
        MirExpr::BitNot(base) => {
            let base: &MirExprNode = &**base;
            let lowered = expr_lowered(c.frame, *base, s);
            lemma_expr(c, base, s);
            lemma_first(c, s, lowered);
            let value = first_of(lowered)->0;
            let op = Op::Bnot(value.values[0]);
            lemma_define_like(c, value.state, op, value.values[0]);
            lemma_made_then(
                c,
                s,
                value.state,
                value.state.define_like(op, value.values[0])->0,
            );
        },
        MirExpr::BinaryOp(binary) => {
            lemma_binary(c, binary, s);
        },
        MirExpr::ArrayLiteral(elements) => {
            lemma_nodes(c, elements@, s, elements@.len());
        },
        MirExpr::StructLiteral(fields) => {
            lemma_struct(c, fields@, &node.ty, s);
        },
        MirExpr::EnumConstruct(construct) => {
            lemma_constructed(c, construct, &node.ty, s);
        },
        MirExpr::UnionConstruct(field) => {
            let field: &MirFieldValue = &**field;
            lemma_union(c, field, &node.ty, s);
        },
        MirExpr::Slice(slice) => {
            lemma_slice(c, slice, s);
        },
        MirExpr::Cast(cast) => {
            lemma_cast(c, cast, s);
        },
    }
}

} // verus!
