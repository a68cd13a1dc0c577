//! That lowering constants, places and expressions keeps functions sound.

use crate::checked::NumberValue;
use crate::codegen::constants::{
    body_offsets, dynamic_offsets, element_identities, elements_pooled, header_offsets, moved,
    paired, pooled, target_identity, target_pooled, text_object, KeyView, ObjectView,
};
use crate::codegen::inline_asm::rendered_template;
use crate::codegen::llvm::{
    addressed, all_stored, int_value, leaf_type, leaves_width, loaded, loaded_aligned,
    pointer_value, slot_of, spilled, stack_align, zero_of, Lowered, LoweringView, Op, Operand,
    SlotUse, StatementView, Storage, Value, ValueType,
};
use crate::codegen::llvm::constant::{
    bytes_emitted, const_emitted, data_value, elements_emitted, field_stored, fields_emitted,
    fields_stored, prefix_stored, scalar_of, sequence_emitted, zero_filled,
};
use crate::codegen::llvm::expr::{
    args_lowered, assigned, binary_lowered, bound_lowered, call_lowered, cast_lowered, code_lowered,
    coerce_lowered, constraints_from, constructed, dynamic_lowered, end_lowered, expr_lowered,
    fields_gathered, fields_placed, flattened, is_promoted, nodes_lowered, operand_lowered,
    operands_lowered, slice_lowered, slice_of, struct_lowered, union_lowered, Operands,
};
use crate::codegen::llvm::place::{
    all_projected, element_address, elements_base, first_pointer, place_lowered, place_resolved,
    projected, root_resolved, PlaceState,
};
use crate::codegen::llvm::scalar::{
    all_promoted, called, first_of, operated, passed, range_end, reinterpreted, sequence_parts,
    sliced, table_address,
};
use crate::codegen::llvm::sound_scalar::{
    lemma_all_promoted, lemma_called, lemma_converted, lemma_element_address, lemma_extended,
    lemma_first, lemma_first_pointer, lemma_operated, lemma_passed, lemma_range_end,
    lemma_reinterpreted, lemma_sequence_parts, lemma_sliced, lemma_table_address, made_one,
};
use crate::codegen::llvm::soundness::{
    at, countable, follows, has, have_all, kept, lemma_addressed, lemma_all_stored, lemma_along,
    lemma_count, lemma_define, lemma_has, lemma_have, lemma_having, lemma_kept_then, lemma_loaded,
    lemma_loaded_aligned, lemma_made_then, lemma_pool, lemma_push, lemma_ready, lemma_same,
    lemma_slot, lemma_spilled, lemma_statement, made, ok, reachable, ready, Scope,
};
use crate::codegen::mir::{
    MirAsmOperand, MirAsmOperandKind, MirAssignment, MirBinaryOp, MirCast, MirDynamicCall,
    MirEnumConstruct, MirExpr, MirExprNode, MirFieldValue, MirFunctionCall, MirInlineAsm, MirPlace,
    MirPlaceRoot, MirProjection, MirSlice, MirSpecCoerce,
};
use crate::codegen::pool_laws::{
    grew, law_positions_lead_to_their_key, lemma_elements_pooled, lemma_pooled, lemma_target_pooled,
};
use crate::codegen::shared::{is_float, operand_kind};
use crate::layout::{align_of, chunks, leaves_spec, payload_of, payload_width, size_of, Leaf};
use crate::resolved_type::{
    ConstValue, ResolvedEnumType, ResolvedField, ResolvedFunctionType, ResolvedType,
};
use vstd::prelude::*;
use vstd::utf8::encode_utf8;

verus! {

proof fn lemma_scalar(c: Scope, s: LoweringView, leaf: Leaf, number: NumberValue, pointer_bytes: u32)
    requires
        scalar_of(leaf, number, pointer_bytes) is Some,
    ensures
        has(c, s, scalar_of(leaf, number, pointer_bytes)->0),
{
}

proof fn lemma_sequence(
    c: Scope,
    s: LoweringView,
    pool: Seq<ObjectView>,
    key: KeyView,
    length: nat,
)
    requires
        ok(c, s),
        grew(s.pool, pool),
        sequence_emitted(s, pool, key, length) is Some,
    ensures
        made(c, s, sequence_emitted(s, pool, key, length)->0),
{
    lemma_pool(c, s, pool);
    if countable(s.with_pool(pool)) {
        law_positions_lead_to_their_key(pool, key);
    }
}

proof fn lemma_bytes(c: Scope, s: LoweringView, text: Seq<char>)
    requires
        ok(c, s),
        bytes_emitted(s, text) is Some,
    ensures
        made(c, s, bytes_emitted(s, text)->0),
{
    lemma_pooled(s.pool, text);
    lemma_sequence(
        c,
        s,
        pooled(s.pool, text_object(text)),
        KeyView::Text(encode_utf8(text)),
        encode_utf8(text).len(),
    );
}

proof fn lemma_zero_filled(
    c: Scope,
    s: LoweringView,
    leaves: Seq<Leaf>,
    slot: Value,
    start: u32,
    pointer_bytes: u32,
    n: nat,
)
    requires
        ok(c, s),
        countable(s) ==> at(c, s, slot),
        zero_filled(s, leaves, slot, start, pointer_bytes, n) is Some,
    ensures
        kept(c, s, zero_filled(s, leaves, slot, start, pointer_bytes, n)->0),
        countable(zero_filled(s, leaves, slot, start, pointer_bytes, n)->0) ==> at(
            c,
            zero_filled(s, leaves, slot, start, pointer_bytes, n)->0,
            slot,
        ),
    decreases n,
{
    if n == 0 {
        lemma_same(c, s);
    } else {
        lemma_zero_filled(c, s, leaves, slot, start, pointer_bytes, (n - 1) as nat);
        let before = zero_filled(s, leaves, slot, start, pointer_bytes, (n - 1) as nat)->0;
        let offset = moved(start, leaves_width(leaves, pointer_bytes, (n - 1) as nat))->0;
        let zeros = seq![zero_of(leaf_type(leaves[n - 1], pointer_bytes))];
        lemma_all_stored(c, before, slot, offset, zeros, 1, pointer_bytes);
        lemma_kept_then(
            c,
            s,
            before,
            all_stored(before, slot, offset, zeros, 1, pointer_bytes)->0,
        );
    }
}

#[verifier::rlimit(60)]
proof fn lemma_const(
    c: Scope,
    s: LoweringView,
    value: ConstValue,
    ty: &ResolvedType,
    pointer_bytes: u32,
)
    requires
        ok(c, s),
        const_emitted(s, value, *ty, pointer_bytes) is Some,
    ensures
        made(c, s, const_emitted(s, value, *ty, pointer_bytes)->0),
    decreases ty, 0int, 0nat,
{
    match value {
        ConstValue::Number(number) => {
            let leaf = leaves_spec(*ty, pointer_bytes)[0];
            lemma_scalar(c, s, leaf, number, pointer_bytes);
            lemma_having(c, s, scalar_of(leaf, number, pointer_bytes)->0);
        },
        ConstValue::Bool(_) => {
            lemma_same(c, s);
        },
        ConstValue::Char(_) => {
            lemma_same(c, s);
        },
        ConstValue::Str(text) => {
            lemma_bytes(c, s, text@);
        },
        ConstValue::Slice(elements) => match ty {
            ResolvedType::Slice { item, .. } => {
                let item: &ResolvedType = &**item;
                lemma_elements_pooled(elements@, item, s.pool, pointer_bytes);
                lemma_sequence(
                    c,
                    s,
                    elements_pooled(elements@, *item, s.pool, pointer_bytes)->0,
                    KeyView::Blob(
                        element_identities(elements@, *item, elements@.len(), pointer_bytes),
                    ),
                    elements@.len(),
                );
            },
            _ => {},
        },
        ConstValue::Array(elements) => match ty {
            ResolvedType::SizedArray(item, _) => {
                lemma_elements(c, s, elements@, &**item, elements@.len(), pointer_bytes);
            },
            _ => {},
        },
        ConstValue::Struct(fields) => match ty {
            ResolvedType::Struct(cell) => {
                lemma_fields(
                    c,
                    s,
                    fields@,
                    cell.fields@,
                    paired(fields@.len(), cell.fields@.len()),
                    pointer_bytes,
                );
            },
            _ => {},
        },
        ConstValue::Enum { variant_index, tag, dynamic_fields, fields, .. } => match ty {
            ResolvedType::Enum { cell, .. } => {
                let cell: &ResolvedEnumType = &**cell;
                let variant = cell.variants@[variant_index as int];
                let slot = s.next_slot();
                let storage = Storage::Memory { base: slot, offset: 0 };
                let data = slot_of(
                    size_of(*ty, pointer_bytes),
                    stack_align(*ty),
                    SlotUse::EnumConst,
                );
                let room = s.with_slot(data);
                lemma_slot(c, s, data);
                lemma_prefix(c, room, tag, variant.header_values@, cell, slot, pointer_bytes);
                let headed = prefix_stored(
                    room,
                    tag,
                    variant.header_values@,
                    *cell,
                    slot,
                    pointer_bytes,
                )->0;
                lemma_kept_then(c, s, room, headed);
                lemma_fields_stored(
                    c,
                    headed,
                    dynamic_fields@,
                    cell.dynamic_fields@,
                    dynamic_offsets(*cell, pointer_bytes),
                    slot,
                    paired(dynamic_fields@.len(), cell.dynamic_fields@.len()),
                    pointer_bytes,
                );
                let shared = fields_stored(
                    headed,
                    dynamic_fields@,
                    cell.dynamic_fields@,
                    dynamic_offsets(*cell, pointer_bytes),
                    slot,
                    paired(dynamic_fields@.len(), cell.dynamic_fields@.len()),
                    pointer_bytes,
                )->0;
                lemma_kept_then(c, s, headed, shared);
                lemma_fields_stored(
                    c,
                    shared,
                    fields@,
                    variant.fields@,
                    body_offsets(*cell, variant_index as int, pointer_bytes),
                    slot,
                    paired(fields@.len(), variant.fields@.len()),
                    pointer_bytes,
                );
                let whole = fields_stored(
                    shared,
                    fields@,
                    variant.fields@,
                    body_offsets(*cell, variant_index as int, pointer_bytes),
                    slot,
                    paired(fields@.len(), variant.fields@.len()),
                    pointer_bytes,
                )->0;
                lemma_kept_then(c, s, shared, whole);
                lemma_loaded_aligned(c, whole, storage, *ty, pointer_bytes);
                lemma_made_then(
                    c,
                    s,
                    whole,
                    loaded_aligned(whole, storage, *ty, pointer_bytes)->0,
                );
            },
            _ => {},
        },
        ConstValue::Union { field_index, value: inner } => match ty {
            ResolvedType::Union(cell) => {
                let slot = s.next_slot();
                let storage = Storage::Memory { base: slot, offset: 0 };
                let leaves = leaves_spec(*ty, pointer_bytes);
                let data = slot_of(size_of(*ty, pointer_bytes), 16, SlotUse::UnionConst);
                let room = s.with_slot(data);
                lemma_slot(c, s, data);
                lemma_zero_filled(c, room, leaves, slot, 0, pointer_bytes, leaves.len());
                let cleared = zero_filled(room, leaves, slot, 0, pointer_bytes, leaves.len())->0;
                lemma_kept_then(c, s, room, cleared);
                let field_type: &ResolvedType = &cell.fields@[field_index as int].ty;
                lemma_const(c, cleared, *inner, field_type, pointer_bytes);
                let field = const_emitted(cleared, *inner, *field_type, pointer_bytes)->0;
                lemma_made_then(c, s, cleared, field);
                if countable(field.state) {
                    lemma_has(c, cleared, field.state, slot);
                }
                let align = align_of(*field_type) as u32;
                lemma_all_stored(c, field.state, slot, 0, field.values, align, pointer_bytes);
                let whole = all_stored(
                    field.state,
                    slot,
                    0,
                    field.values,
                    align,
                    pointer_bytes,
                )->0;
                lemma_kept_then(c, s, field.state, whole);
                lemma_loaded_aligned(c, whole, storage, *ty, pointer_bytes);
                lemma_made_then(
                    c,
                    s,
                    whole,
                    loaded_aligned(whole, storage, *ty, pointer_bytes)->0,
                );
            },
            _ => {},
        },
        ConstValue::Ref(inner) => match ty {
            ResolvedType::Pointer { pointee, .. } => {
                let pointee: &ResolvedType = &**pointee;
                lemma_target_pooled(*inner, pointee, s.pool, pointer_bytes);
                let pool = target_pooled(*inner, *pointee, s.pool, pointer_bytes)->0;
                let grown = s.with_pool(pool);
                lemma_pool(c, s, pool);
                let key = KeyView::Blob(target_identity(*inner, *pointee, pointer_bytes));
                if countable(grown) {
                    law_positions_lead_to_their_key(pool, key);
                }
                lemma_having(c, grown, data_value(pool, key)->0);
                lemma_made_then(c, s, grown, grown.having(data_value(pool, key)->0));
            },
            _ => {},
        },
    }
}

proof fn lemma_append(c: Scope, s: LoweringView, before: Lowered, last: Lowered)
    requires
        made(c, s, before),
        made(c, before.state, last),
    ensures
        made(c, s, Lowered { values: before.values + last.values, ..last }),
{
    lemma_made_then(c, s, before.state, last);
    if countable(last.state) {
        lemma_have(c, before.state, last.state, before.values);
        let all = before.values + last.values;
        assert forall|i: int| 0 <= i < all.len() implies has(c, last.state, #[trigger] all[i]) by {
            if i < before.values.len() {
                assert(all[i] == before.values[i]);
            } else {
                assert(all[i] == last.values[i - before.values.len()]);
            }
        }
    }
}

proof fn lemma_elements(
    c: Scope,
    s: LoweringView,
    values: Seq<ConstValue>,
    item: &ResolvedType,
    n: nat,
    pointer_bytes: u32,
)
    requires
        ok(c, s),
        elements_emitted(s, values, *item, n, pointer_bytes) is Some,
    ensures
        made(c, s, elements_emitted(s, values, *item, n, pointer_bytes)->0),
    decreases item, 1int, n,
{
    if n == 0 {
        lemma_same(c, s);
    } else {
        lemma_elements(c, s, values, item, (n - 1) as nat, pointer_bytes);
        let before = elements_emitted(s, values, *item, (n - 1) as nat, pointer_bytes)->0;
        lemma_const(c, before.state, values[n - 1], item, pointer_bytes);
        lemma_append(
            c,
            s,
            before,
            const_emitted(before.state, values[n - 1], *item, pointer_bytes)->0,
        );
    }
}

proof fn lemma_fields(
    c: Scope,
    s: LoweringView,
    values: Seq<ConstValue>,
    fields: Seq<ResolvedField>,
    n: nat,
    pointer_bytes: u32,
)
    requires
        ok(c, s),
        fields_emitted(s, values, fields, n, pointer_bytes) is Some,
    ensures
        made(c, s, fields_emitted(s, values, fields, n, pointer_bytes)->0),
    decreases fields, 0int, n,
{
    if n == 0 || n > fields.len() {
        lemma_same(c, s);
    } else {
        lemma_fields(c, s, values, fields, (n - 1) as nat, pointer_bytes);
        let before = fields_emitted(s, values, fields, (n - 1) as nat, pointer_bytes)->0;
        lemma_const(c, before.state, values[n - 1], &fields[n - 1].ty, pointer_bytes);
        lemma_append(
            c,
            s,
            before,
            const_emitted(before.state, values[n - 1], fields[n - 1].ty, pointer_bytes)->0,
        );
    }
}

proof fn lemma_field_stored(
    c: Scope,
    s: LoweringView,
    value: ConstValue,
    ty: &ResolvedType,
    slot: Value,
    offset: nat,
    pointer_bytes: u32,
)
    requires
        ok(c, s),
        countable(s) ==> at(c, s, slot),
        field_stored(s, value, *ty, slot, offset, pointer_bytes) is Some,
    ensures
        kept(c, s, field_stored(s, value, *ty, slot, offset, pointer_bytes)->0),
        countable(field_stored(s, value, *ty, slot, offset, pointer_bytes)->0) ==> at(
            c,
            field_stored(s, value, *ty, slot, offset, pointer_bytes)->0,
            slot,
        ),
    decreases ty, 1int, 0nat,
{
    lemma_const(c, s, value, ty, pointer_bytes);
    let field = const_emitted(s, value, *ty, pointer_bytes)->0;
    lemma_count(s, field.state);
    if countable(field.state) {
        lemma_has(c, s, field.state, slot);
    }
    let place = moved(0, offset)->0;
    let align = align_of(*ty) as u32;
    lemma_all_stored(c, field.state, slot, place, field.values, align, pointer_bytes);
    lemma_kept_then(
        c,
        s,
        field.state,
        all_stored(field.state, slot, place, field.values, align, pointer_bytes)->0,
    );
}

proof fn lemma_fields_stored(
    c: Scope,
    s: LoweringView,
    values: Seq<ConstValue>,
    fields: Seq<ResolvedField>,
    offsets: Seq<nat>,
    slot: Value,
    n: nat,
    pointer_bytes: u32,
)
    requires
        ok(c, s),
        countable(s) ==> at(c, s, slot),
        fields_stored(s, values, fields, offsets, slot, n, pointer_bytes) is Some,
    ensures
        kept(c, s, fields_stored(s, values, fields, offsets, slot, n, pointer_bytes)->0),
        countable(fields_stored(s, values, fields, offsets, slot, n, pointer_bytes)->0) ==> at(
            c,
            fields_stored(s, values, fields, offsets, slot, n, pointer_bytes)->0,
            slot,
        ),
    decreases fields, 0int, n,
{
    if n == 0 || n > fields.len() {
        lemma_same(c, s);
    } else {
        lemma_fields_stored(c, s, values, fields, offsets, slot, (n - 1) as nat, pointer_bytes);
        let before = fields_stored(
            s,
            values,
            fields,
            offsets,
            slot,
            (n - 1) as nat,
            pointer_bytes,
        )->0;
        lemma_field_stored(
            c,
            before,
            values[n - 1],
            &fields[n - 1].ty,
            slot,
            offsets[n - 1],
            pointer_bytes,
        );
        lemma_kept_then(
            c,
            s,
            before,
            fields_stored(s, values, fields, offsets, slot, n, pointer_bytes)->0,
        );
    }
}

proof fn lemma_prefix(
    c: Scope,
    s: LoweringView,
    tag: NumberValue,
    header: Seq<ConstValue>,
    cell: &ResolvedEnumType,
    slot: Value,
    pointer_bytes: u32,
)
    requires
        ok(c, s),
        countable(s) ==> at(c, s, slot),
        prefix_stored(s, tag, header, *cell, slot, pointer_bytes) is Some,
    ensures
        kept(c, s, prefix_stored(s, tag, header, *cell, slot, pointer_bytes)->0),
        countable(prefix_stored(s, tag, header, *cell, slot, pointer_bytes)->0) ==> at(
            c,
            prefix_stored(s, tag, header, *cell, slot, pointer_bytes)->0,
            slot,
        ),
    decreases cell, 0int, 0nat,
{
    let leaf = leaves_spec(cell.tag_type, pointer_bytes)[0];
    lemma_scalar(c, s, leaf, tag, pointer_bytes);
    let values = seq![scalar_of(leaf, tag, pointer_bytes)->0];
    let align = align_of(cell.tag_type) as u32;
    lemma_all_stored(c, s, slot, 0, values, align, pointer_bytes);
    let tagged = all_stored(s, slot, 0, values, align, pointer_bytes)->0;
    lemma_fields_stored(
        c,
        tagged,
        header,
        cell.header@,
        header_offsets(*cell, pointer_bytes),
        slot,
        paired(header.len(), cell.header@.len()),
        pointer_bytes,
    );
    lemma_kept_then(
        c,
        s,
        tagged,
        prefix_stored(s, tag, header, *cell, slot, pointer_bytes)->0,
    );
}

/// Whether resolving a place keeps a function sound and leads somewhere.
pub open spec fn found(c: Scope, before: LoweringView, p: PlaceState) -> bool {
    &&& kept(c, before, p.state)
    &&& countable(p.state) ==> reachable(c, p.state, p.storage)
}

proof fn lemma_elements_base(
    c: Scope,
    s: LoweringView,
    storage: Storage,
    ty: &ResolvedType,
    pointer_bytes: u32,
)
    requires
        ok(c, s),
        countable(s) ==> reachable(c, s, storage),
        elements_base(s, storage, *ty, pointer_bytes) is Some,
    ensures
        made_one(c, s, elements_base(s, storage, *ty, pointer_bytes)->0),
{
    match ty {
        ResolvedType::SizedArray(_, _) => {
            lemma_addressed(c, s, storage, pointer_bytes);
        },
        _ => {
            lemma_loaded_aligned(c, s, storage, *ty, pointer_bytes);
            lemma_first_pointer(c, s, loaded_aligned(s, storage, *ty, pointer_bytes));
        },
    }
}

proof fn lemma_root(c: Scope, root: &MirPlaceRoot, s: LoweringView)
    requires
        ready(c, s),
        root_resolved(c.frame, *root, s) is Some,
    ensures
        found(c, s, root_resolved(c.frame, *root, s)->0),
    decreases root, 0int, 0nat,
{
    match root {
        MirPlaceRoot::Local { id, ty } => {
            lemma_same(c, s);
            if id.0 < c.frame.arg_count && countable(s) {
                assert(have_all(c, s, c.frame.local_args[id.0 as int]));
            }
        },
        MirPlaceRoot::Function(_) => {},
        MirPlaceRoot::Global { .. } => {
            lemma_same(c, s);
        },
        MirPlaceRoot::Expr(expr) => {
            let expr: &MirExprNode = &**expr;
            lemma_expr(c, expr, s);
            let lowered = expr_lowered(c.frame, *expr, s)->0;
            lemma_spilled(
                c,
                lowered.state,
                lowered.values,
                expr.ty,
                SlotUse::Tmp,
                c.frame.pb(),
            );
            let after = spilled(
                lowered.state,
                lowered.values,
                expr.ty,
                SlotUse::Tmp,
                c.frame.pb(),
            )->0;
            lemma_kept_then(c, s, lowered.state, after.0);
        },
    }
}

#[verifier::rlimit(60)]
proof fn lemma_projected(c: Scope, p: PlaceState, projection: &MirProjection)
    requires
        ready(c, p.state),
        countable(p.state) ==> reachable(c, p.state, p.storage),
        projected(c.frame, p, *projection) is Some,
    ensures
        found(c, p.state, projected(c.frame, p, *projection)->0),
    decreases projection, 0int, 0nat,
{
    let pb = c.frame.pb();
    lemma_same(c, p.state);
    match projection {
        MirProjection::FieldAccess { .. } => {},
        MirProjection::UnionField { ty } => match p.storage {
            Storage::Values(values) => {
                lemma_spilled(c, p.state, values, p.ty, SlotUse::UnionSpill, pb);
            },
            _ => {},
        },
        MirProjection::Deref { ty } => {
            lemma_loaded_aligned(c, p.state, p.storage, p.ty, pb);
            lemma_first_pointer(c, p.state, loaded_aligned(p.state, p.storage, p.ty, pb));
        },
        MirProjection::Index { index_expr, item_type } => {
            let index_expr: &MirExprNode = &**index_expr;
            lemma_elements_base(c, p.state, p.storage, &p.ty, pb);
            let base = elements_base(p.state, p.storage, p.ty, pb)->0;
            lemma_ready(c, p.state, base.state);
            lemma_expr(c, index_expr, base.state);
            let index = expr_lowered(c.frame, *index_expr, base.state)->0;
            lemma_kept_then(c, p.state, base.state, index.state);
            if countable(index.state) {
                lemma_has(c, base.state, index.state, base.values[0]);
                assert(has(c, index.state, index.values[0]));
            }
            lemma_element_address(
                c,
                index.state,
                base.values[0],
                index.values[0],
                size_of(*item_type, pb),
                pb,
            );
            let address = element_address(
                index.state,
                base.values[0],
                index.values[0],
                size_of(*item_type, pb),
                pb,
            )->0;
            lemma_made_then(c, p.state, index.state, address);
        },
        _ => {},
    }
}

proof fn lemma_all_projected(
    c: Scope,
    p: PlaceState,
    projections: Seq<MirProjection>,
    n: nat,
)
    requires
        ready(c, p.state),
        countable(p.state) ==> reachable(c, p.state, p.storage),
        all_projected(c.frame, p, projections, n) is Some,
    ensures
        found(c, p.state, all_projected(c.frame, p, projections, n)->0),
    decreases projections, 0int, n,
{
    if n == 0 || n > projections.len() {
        lemma_same(c, p.state);
    } else {
        lemma_all_projected(c, p, projections, (n - 1) as nat);
        let before = all_projected(c.frame, p, projections, (n - 1) as nat)->0;
        lemma_ready(c, p.state, before.state);
        lemma_projected(c, before, &projections[n - 1]);
        lemma_kept_then(
            c,
            p.state,
            before.state,
            projected(c.frame, before, projections[n - 1])->0.state,
        );
    }
}

proof fn lemma_place(c: Scope, place: &MirPlace, s: LoweringView)
    requires
        ready(c, s),
        place_resolved(c.frame, *place, s) is Some,
    ensures
        found(c, s, place_resolved(c.frame, *place, s)->0),
    decreases place, 0int, 0nat,
{
    lemma_root(c, &place.root, s);
    let root = root_resolved(c.frame, place.root, s)->0;
    lemma_ready(c, s, root.state);
    lemma_all_projected(c, root, place.projections@, place.projections@.len());
    lemma_kept_then(c, s, root.state, place_resolved(c.frame, *place, s)->0.state);
}

proof fn lemma_place_lowered(c: Scope, place: &MirPlace, s: LoweringView)
    requires
        ready(c, s),
        place_lowered(c.frame, *place, s) is Some,
    ensures
        made(c, s, place_lowered(c.frame, *place, s)->0),
    decreases place, 1int, 0nat,
{
    match place.root {
        MirPlaceRoot::Function(id) => {
            lemma_having(c, s, pointer_value(Operand::Function(id)));
        },
        _ => {
            lemma_place(c, place, s);
            let p = place_resolved(c.frame, *place, s)->0;
            lemma_loaded(c, p.state, p.storage, p.ty, place.align, c.frame.pb());
            lemma_made_then(
                c,
                s,
                p.state,
                loaded(p.state, p.storage, p.ty, place.align, c.frame.pb())->0,
            );
        },
    }
}

proof fn lemma_args(
    c: Scope,
    args: Seq<MirExprNode>,
    fn_type: ResolvedFunctionType,
    s: LoweringView,
    n: nat,
)
    requires
        ready(c, s),
        args_lowered(c.frame, args, fn_type, s, n) is Some,
    ensures
        made(c, s, args_lowered(c.frame, args, fn_type, s, n)->0),
    decreases args, 0int, n,
{
    if n == 0 || n > args.len() {
        lemma_same(c, s);
    } else {
        lemma_args(c, args, fn_type, s, (n - 1) as nat);
        let before = args_lowered(c.frame, args, fn_type, s, (n - 1) as nat)->0;
        lemma_ready(c, s, before.state);
        lemma_expr(c, &args[n - 1], before.state);
        let arg = expr_lowered(c.frame, args[n - 1], before.state)->0;
        if is_promoted(fn_type, n - 1) {
            let bits = (c.frame.pb() * 8) as u32;
            let count = arg.values.len();
            lemma_all_promoted(c, arg.state, arg.values, args[n - 1].ty, bits, count);
            let last = all_promoted(arg.state, arg.values, args[n - 1].ty, bits, count)->0;
            lemma_made_then(c, before.state, arg.state, last);
            lemma_append(c, s, before, last);
        } else {
            lemma_append(c, s, before, arg);
        }
    }
}

proof fn lemma_nodes(c: Scope, nodes: Seq<MirExprNode>, s: LoweringView, n: nat)
    requires
        ready(c, s),
        nodes_lowered(c.frame, nodes, s, n) is Some,
    ensures
        made(c, s, nodes_lowered(c.frame, nodes, s, n)->0),
    decreases nodes, 0int, n,
{
    if n == 0 || n > nodes.len() {
        lemma_same(c, s);
    } else {
        lemma_nodes(c, nodes, s, (n - 1) as nat);
        let before = nodes_lowered(c.frame, nodes, s, (n - 1) as nat)->0;
        lemma_ready(c, s, before.state);
        lemma_expr(c, &nodes[n - 1], before.state);
        lemma_append(c, s, before, expr_lowered(c.frame, nodes[n - 1], before.state)->0);
    }
}

/// Whether there is what each field was given.
pub open spec fn given_all(
    c: Scope,
    s: LoweringView,
    per_field: Seq<Option<Seq<Value>>>,
) -> bool {
    forall|i: int|
        0 <= i < per_field.len() ==> match #[trigger] per_field[i] {
            Some(values) => have_all(c, s, values),
            None => true,
        }
}

proof fn lemma_given(
    c: Scope,
    a: LoweringView,
    b: LoweringView,
    per_field: Seq<Option<Seq<Value>>>,
)
    requires
        follows(a, b),
        given_all(c, a, per_field),
    ensures
        given_all(c, b, per_field),
{
    assert forall|i: int| 0 <= i < per_field.len() implies match #[trigger] per_field[i] {
        Some(values) => have_all(c, b, values),
        None => true,
    } by {
        match per_field[i] {
            Some(values) => {
                lemma_have(c, a, b, values);
            },
            None => {},
        }
    }
}

proof fn lemma_gathered(
    c: Scope,
    fields: Seq<MirFieldValue>,
    count: nat,
    s: LoweringView,
    n: nat,
)
    requires
        ready(c, s),
        fields_gathered(c.frame, fields, count, s, n) is Some,
    ensures
        ({
            let (after, per_field) = fields_gathered(c.frame, fields, count, s, n)->0;
            kept(c, s, after) && (countable(after) ==> given_all(c, after, per_field))
                && per_field.len() == count
        }),
    decreases fields, 0int, n,
{
    if n == 0 || n > fields.len() {
        lemma_same(c, s);
    } else {
        lemma_gathered(c, fields, count, s, (n - 1) as nat);
        let (before, per_field) = fields_gathered(c.frame, fields, count, s, (n - 1) as nat)->0;
        lemma_ready(c, s, before);
        lemma_expr(c, &fields[n - 1].value, before);
        let last = expr_lowered(c.frame, fields[n - 1].value, before)->0;
        lemma_kept_then(c, s, before, last.state);
        if countable(last.state) {
            lemma_given(c, before, last.state, per_field);
        }
    }
}

proof fn lemma_flattened(
    c: Scope,
    s: LoweringView,
    per_field: Seq<Option<Seq<Value>>>,
    n: nat,
)
    requires
        given_all(c, s, per_field),
        n <= per_field.len(),
        flattened(per_field, n) is Some,
    ensures
        have_all(c, s, flattened(per_field, n)->0),
    decreases n,
{
    if n > 0 {
        lemma_flattened(c, s, per_field, (n - 1) as nat);
        let before = flattened(per_field, (n - 1) as nat)->0;
        let last = per_field[n - 1]->0;
        let all = before + last;
        assert forall|i: int| 0 <= i < all.len() implies has(c, s, #[trigger] all[i]) by {
            if i < before.len() {
                assert(all[i] == before[i]);
            } else {
                assert(all[i] == last[i - before.len()]);
            }
        }
    }
}

proof fn lemma_placed(
    c: Scope,
    fields: Seq<MirFieldValue>,
    offsets: Seq<nat>,
    slot: Value,
    s: LoweringView,
    n: nat,
)
    requires
        ready(c, s),
        countable(s) ==> at(c, s, slot),
        fields_placed(c.frame, fields, offsets, slot, s, n) is Some,
    ensures
        kept(c, s, fields_placed(c.frame, fields, offsets, slot, s, n)->0),
        countable(fields_placed(c.frame, fields, offsets, slot, s, n)->0) ==> at(
            c,
            fields_placed(c.frame, fields, offsets, slot, s, n)->0,
            slot,
        ),
    decreases fields, 0int, n,
{
    if n == 0 || n > fields.len() {
        lemma_same(c, s);
    } else {
        lemma_placed(c, fields, offsets, slot, s, (n - 1) as nat);
        let before = fields_placed(c.frame, fields, offsets, slot, s, (n - 1) as nat)->0;
        lemma_ready(c, s, before);
        lemma_expr(c, &fields[n - 1].value, before);
        let last = expr_lowered(c.frame, fields[n - 1].value, before)->0;
        lemma_kept_then(c, s, before, last.state);
        if countable(last.state) {
            lemma_has(c, s, last.state, slot);
        }
        let offset = moved(0, offsets[fields[n - 1].field_index as int])->0;
        lemma_all_stored(c, last.state, slot, offset, last.values, 1, c.frame.pb());
        lemma_kept_then(
            c,
            s,
            last.state,
            all_stored(last.state, slot, offset, last.values, 1, c.frame.pb())->0,
        );
    }
}

proof fn lemma_bound(c: Scope, bound: &Option<Box<MirExprNode>>, s: LoweringView)
    requires
        ready(c, s),
        bound_lowered(c.frame, *bound, s) is Some,
    ensures
        made_one(c, s, bound_lowered(c.frame, *bound, s)->0),
    decreases bound, 0int, 0nat,
{
    match bound {
        Some(expr) => {
            let expr: &MirExprNode = &**expr;
            lemma_expr(c, expr, s);
            lemma_first(c, s, expr_lowered(c.frame, *expr, s));
        },
        None => {
            lemma_having(c, s, int_value(ValueType::I32, 0));
        },
    }
}

proof fn lemma_end(
    c: Scope,
    bound: &Option<Box<MirExprNode>>,
    inclusive: bool,
    length: Value,
    s: LoweringView,
)
    requires
        ready(c, s),
        countable(s) ==> has(c, s, length),
        end_lowered(c.frame, *bound, inclusive, length, s) is Some,
    ensures
        made_one(c, s, end_lowered(c.frame, *bound, inclusive, length, s)->0),
    decreases bound, 0int, 0nat,
{
    match bound {
        Some(expr) => {
            let expr: &MirExprNode = &**expr;
            let lowered = expr_lowered(c.frame, *expr, s);
            lemma_expr(c, expr, s);
            lemma_first(c, s, lowered);
            let end = first_of(lowered)->0;
            lemma_range_end(c, end.state, end.values[0], inclusive);
            lemma_made_then(
                c,
                s,
                end.state,
                range_end(end.state, end.values[0], inclusive)->0,
            );
        },
        None => {
            lemma_having(c, s, length);
        },
    }
}

proof fn lemma_constructed(
    c: Scope,
    construct: &MirEnumConstruct,
    ty: &ResolvedType,
    s: LoweringView,
)
    requires
        ready(c, s),
        constructed(c.frame, *construct, *ty, s) is Some,
    ensures
        made(c, s, constructed(c.frame, *construct, *ty, s)->0),
    decreases construct, 0int, 0nat,
{
    let pb = c.frame.pb();
    match ty {
        ResolvedType::Enum { cell, .. } => {
            let cell: &ResolvedEnumType = &**cell;
            let variant = cell.variants@[construct.variant_index as int];
            let slot = s.next_slot();
            let storage = Storage::Memory { base: slot, offset: 0 };
            let cleared = chunks(payload_width(*cell, pb));
            let data = slot_of(size_of(*ty, pb), stack_align(*ty), SlotUse::Enum);
            let room = s.with_slot(data);
            lemma_slot(c, s, data);
            lemma_prefix(c, room, variant.tag, variant.header_values@, cell, slot, pb);
            let headed = prefix_stored(
                room,
                variant.tag,
                variant.header_values@,
                *cell,
                slot,
                pb,
            )->0;
            lemma_kept_then(c, s, room, headed);
            let start = payload_of(*cell, pb) as u32;
            lemma_zero_filled(c, headed, cleared, slot, start, pb, cleared.len());
            let empty = zero_filled(headed, cleared, slot, start, pb, cleared.len())->0;
            lemma_kept_then(c, s, headed, empty);
            lemma_ready(c, s, empty);
            let offsets = dynamic_offsets(*cell, pb) + body_offsets(
                *cell,
                construct.variant_index as int,
                pb,
            );
            lemma_placed(
                c,
                construct.fields@,
                offsets,
                slot,
                empty,
                construct.fields@.len(),
            );
            let whole = fields_placed(
                c.frame,
                construct.fields@,
                offsets,
                slot,
                empty,
                construct.fields@.len(),
            )->0;
            lemma_kept_then(c, s, empty, whole);
            lemma_loaded_aligned(c, whole, storage, *ty, pb);
            lemma_made_then(c, s, whole, loaded_aligned(whole, storage, *ty, pb)->0);
        },
        _ => {},
    }
}

proof fn lemma_call(c: Scope, call: &MirFunctionCall, s: LoweringView)
    requires
        ready(c, s),
        call_lowered(c.frame, *call, s) is Some,
    ensures
        made(c, s, call_lowered(c.frame, *call, s)->0),
    decreases call, 0int, 0nat,
{
    let target: &MirExprNode = &*call.callee;
    let fn_type: &ResolvedFunctionType = &*call.fn_type;
    let lowered = expr_lowered(c.frame, *target, s);
    lemma_expr(c, target, s);
    lemma_first_pointer(c, s, lowered);
    let callee = first_pointer(lowered)->0;
    lemma_ready(c, s, callee.state);
    lemma_args(c, call.args@, *fn_type, callee.state, call.args@.len());
    let args = args_lowered(c.frame, call.args@, *fn_type, callee.state, call.args@.len())->0;
    lemma_made_then(c, s, callee.state, args);
    if countable(args.state) {
        lemma_has(c, callee.state, args.state, callee.values[0]);
    }
    let convention = Some(fn_type.calling_convention);
    let pb = c.frame.pb();
    lemma_called(
        c,
        args.state,
        callee.values[0],
        call.fn_type,
        convention,
        args.values,
        pb,
    );
    lemma_made_then(
        c,
        s,
        args.state,
        called(args.state, callee.values[0], call.fn_type, convention, args.values, pb)->0,
    );
}

proof fn lemma_coerce(c: Scope, coerce: &MirSpecCoerce, ty: &ResolvedType, s: LoweringView)
    requires
        ready(c, s),
        coerce_lowered(c.frame, *coerce, *ty, s) is Some,
    ensures
        made(c, s, coerce_lowered(c.frame, *coerce, *ty, s)->0),
    decreases coerce, 0int, 0nat,
{
    let base: &MirExprNode = &*coerce.base;
    match &base.ty {
        ResolvedType::Pointer { pointee, .. } => {
            let pointee: &ResolvedType = &**pointee;
            let lowered = expr_lowered(c.frame, *base, s);
            lemma_expr(c, base, s);
            lemma_first_pointer(c, s, lowered);
            let data = first_pointer(lowered)->0;
            lemma_table_address(c, data.state, *pointee, *ty, coerce.slots);
            let table = table_address(c.frame, data.state, *pointee, *ty, coerce.slots)->0;
            lemma_made_then(c, s, data.state, table);
            if countable(table.state) {
                lemma_has(c, data.state, table.state, data.values[0]);
            }
        },
        _ => {},
    }
}

proof fn lemma_dynamic(c: Scope, call: &MirDynamicCall, s: LoweringView)
    requires
        ready(c, s),
        dynamic_lowered(c.frame, *call, s) is Some,
    ensures
        made(c, s, dynamic_lowered(c.frame, *call, s)->0),
    decreases call, 0int, 0nat,
{
    let pb = c.frame.pb();
    lemma_place_lowered(c, &call.base, s);
    let base = place_lowered(c.frame, call.base, s)->0;
    if countable(base.state) {
        assert(has(c, base.state, base.values[0]));
        assert(has(c, base.state, base.values[1]));
    }
    let offset = moved(0, (call.slot_index * pb) as nat)->0;
    lemma_along(c, base.state, base.values[1], offset, pb);
    let entry = base.state.along(base.values[1], offset, pb);
    let op = Op::Load { pointer: entry.values[0], align: pb };
    lemma_define(c, entry.state, op, ValueType::Ptr);
    let function = entry.state.define(op, ValueType::Ptr);
    lemma_made_then(c, base.state, entry.state, function);
    lemma_made_then(c, s, base.state, function);
    lemma_ready(c, s, function.state);
    lemma_nodes(c, call.args@, function.state, call.args@.len());
    let args = nodes_lowered(c.frame, call.args@, function.state, call.args@.len())->0;
    lemma_made_then(c, base.state, function.state, args);
    lemma_made_then(c, s, base.state, args);
    let all = seq![base.values[0]] + args.values;
    if countable(args.state) {
        lemma_has(c, function.state, args.state, function.values[0]);
        lemma_has(c, base.state, args.state, base.values[0]);
        assert forall|i: int| 0 <= i < all.len() implies has(c, args.state, #[trigger] all[i]) by {
            if i > 0 {
                assert(all[i] == args.values[i - 1]);
            }
        }
    }
    lemma_called(c, args.state, function.values[0], call.fn_type, None, all, pb);
    lemma_made_then(
        c,
        s,
        args.state,
        called(args.state, function.values[0], call.fn_type, None, all, pb)->0,
    );
}

proof fn lemma_binary(c: Scope, binary: &MirBinaryOp, ty: &ResolvedType, s: LoweringView)
    requires
        ready(c, s),
        binary_lowered(c.frame, *binary, *ty, s) is Some,
    ensures
        made(c, s, binary_lowered(c.frame, *binary, *ty, s)->0),
    decreases binary, 0int, 0nat,
{
    let pb = c.frame.pb();
    let left_node: &MirExprNode = &*binary.left;
    let right_node: &MirExprNode = &*binary.right;
    let kind = operand_kind(left_node.ty, (pb * 8) as u32)->0;
    let first = expr_lowered(c.frame, *left_node, s);
    lemma_expr(c, left_node, s);
    lemma_first(c, s, first);
    let left = first_of(first)->0;
    lemma_ready(c, s, left.state);
    let second = expr_lowered(c.frame, *right_node, left.state);
    lemma_expr(c, right_node, left.state);
    lemma_first(c, left.state, second);
    let right = first_of(second)->0;
    lemma_made_then(c, s, left.state, right);
    if countable(right.state) {
        lemma_has(c, left.state, right.state, left.values[0]);
    }
    lemma_operated(c, right.state, binary.op, kind, left.values[0], right.values[0], pb);
    let out = operated(right.state, binary.op, kind, left.values[0], right.values[0], pb)->0;
    lemma_made_then(c, s, right.state, out);
    let leaves = leaves_spec(*ty, pb);
    if leaves.len() > 0 {
        let want = leaf_type(leaves[0], pb);
        lemma_reinterpreted(c, out.state, out.values[0], want, pb);
        lemma_made_then(
            c,
            s,
            out.state,
            reinterpreted(out.state, out.values[0], want, pb)->0,
        );
    }
}

proof fn lemma_struct(c: Scope, fields: Seq<MirFieldValue>, ty: &ResolvedType, s: LoweringView)
    requires
        ready(c, s),
        struct_lowered(c.frame, fields, *ty, s) is Some,
    ensures
        made(c, s, struct_lowered(c.frame, fields, *ty, s)->0),
    decreases fields, 1int, 0nat,
{
    match ty {
        ResolvedType::Struct(cell) => {
            let count = cell.fields@.len();
            lemma_gathered(c, fields, count, s, fields.len());
            let (after, per_field) = fields_gathered(c.frame, fields, count, s, fields.len())->0;
            if countable(after) {
                lemma_flattened(c, after, per_field, per_field.len());
            }
        },
        _ => {},
    }
}

proof fn lemma_union(c: Scope, field: &MirFieldValue, ty: &ResolvedType, s: LoweringView)
    requires
        ready(c, s),
        union_lowered(c.frame, *field, *ty, s) is Some,
    ensures
        made(c, s, union_lowered(c.frame, *field, *ty, s)->0),
    decreases field, 0int, 0nat,
{
    let pb = c.frame.pb();
    let slot = s.next_slot();
    let storage = Storage::Memory { base: slot, offset: 0 };
    let leaves = leaves_spec(*ty, pb);
    let data = slot_of(size_of(*ty, pb), 16, SlotUse::Union);
    let room = s.with_slot(data);
    lemma_slot(c, s, data);
    lemma_zero_filled(c, room, leaves, slot, 0, pb, leaves.len());
    let empty = zero_filled(room, leaves, slot, 0, pb, leaves.len())->0;
    lemma_kept_then(c, s, room, empty);
    lemma_ready(c, s, empty);
    lemma_expr(c, &field.value, empty);
    let value = expr_lowered(c.frame, field.value, empty)->0;
    lemma_made_then(c, s, empty, value);
    if countable(value.state) {
        lemma_has(c, empty, value.state, slot);
    }
    lemma_all_stored(c, value.state, slot, 0, value.values, 1, pb);
    let whole = all_stored(value.state, slot, 0, value.values, 1, pb)->0;
    lemma_kept_then(c, s, value.state, whole);
    lemma_loaded_aligned(c, whole, storage, *ty, pb);
    lemma_made_then(c, s, whole, loaded_aligned(whole, storage, *ty, pb)->0);
}

proof fn lemma_slice_of(c: Scope, slice: &MirSlice, s: LoweringView, parts: Lowered)
    requires
        ready(c, s),
        made(c, s, parts),
        parts.values.len() == 2,
        slice_of(c.frame, *slice, parts) is Some,
    ensures
        made(c, s, slice_of(c.frame, *slice, parts)->0),
    decreases slice, 0int, 0nat,
{
    let pb = c.frame.pb();
    lemma_ready(c, s, parts.state);
    if countable(parts.state) {
        assert(has(c, parts.state, parts.values[0]));
        assert(has(c, parts.state, parts.values[1]));
    }
    lemma_bound(c, &slice.start, parts.state);
    let start = bound_lowered(c.frame, slice.start, parts.state)->0;
    lemma_ready(c, parts.state, start.state);
    if countable(start.state) {
        lemma_has(c, parts.state, start.state, parts.values[1]);
    }
    lemma_end(c, &slice.end, slice.inclusive, parts.values[1], start.state);
    let end = end_lowered(c.frame, slice.end, slice.inclusive, parts.values[1], start.state)->0;
    lemma_made_then(c, parts.state, start.state, end);
    lemma_made_then(c, s, parts.state, end);
    if countable(end.state) {
        lemma_has(c, start.state, end.state, start.values[0]);
        lemma_has(c, parts.state, end.state, parts.values[0]);
    }
    let size = size_of(slice.item_type, pb);
    lemma_sliced(c, end.state, parts.values[0], start.values[0], end.values[0], size, pb);
    lemma_made_then(
        c,
        s,
        end.state,
        sliced(end.state, parts.values[0], start.values[0], end.values[0], size, pb)->0,
    );
}

proof fn lemma_slice(c: Scope, slice: &MirSlice, s: LoweringView)
    requires
        ready(c, s),
        slice_lowered(c.frame, *slice, s) is Some,
    ensures
        made(c, s, slice_lowered(c.frame, *slice, s)->0),
    decreases slice, 1int, 0nat,
{
    lemma_place(c, &slice.base, s);
    let base = place_resolved(c.frame, slice.base, s)->0;
    lemma_sequence_parts(c, base, c.frame.pb());
    let parts = sequence_parts(base, c.frame.pb())->0;
    lemma_made_then(c, s, base.state, parts);
    lemma_slice_of(c, slice, s, parts);
}

proof fn lemma_cast(c: Scope, cast: &MirCast, s: LoweringView)
    requires
        ready(c, s),
        cast_lowered(c.frame, *cast, s) is Some,
    ensures
        made(c, s, cast_lowered(c.frame, *cast, s)->0),
    decreases cast, 0int, 0nat,
{
    let node: &MirExprNode = &*cast.base;
    let pb = c.frame.pb();
    lemma_expr(c, node, s);
    let base = expr_lowered(c.frame, *node, s)->0;
    lemma_converted(
        c,
        s,
        base,
        cast.kind,
        node.ty,
        leaves_spec(cast.target_type, pb),
        pb,
    );
}

proof fn lemma_assigned(c: Scope, assignment: &MirAssignment, s: LoweringView)
    requires
        ready(c, s),
        assigned(c.frame, *assignment, s) is Some,
    ensures
        made(c, s, assigned(c.frame, *assignment, s)->0),
    decreases assignment, 0int, 0nat,
{
    let pb = c.frame.pb();
    let source: &MirExprNode = &*assignment.value;
    lemma_expr(c, source, s);
    let value = expr_lowered(c.frame, *source, s)->0;
    lemma_ready(c, s, value.state);
    lemma_place(c, &assignment.target, value.state);
    let target = place_resolved(c.frame, assignment.target, value.state)->0;
    lemma_kept_then(c, s, value.state, target.state);
    if countable(target.state) {
        lemma_have(c, value.state, target.state, value.values);
    }
    match target.storage {
        Storage::Memory { base, offset } => {
            let align = assignment.target.align;
            lemma_all_stored(c, target.state, base, offset, value.values, align, pb);
            let after = all_stored(target.state, base, offset, value.values, align, pb)->0;
            lemma_kept_then(c, s, target.state, after);
            if countable(after) {
                lemma_have(c, target.state, after, value.values);
            }
        },
        Storage::Values(_) => {},
    }
}

proof fn lemma_operands(c: Scope, operands: Seq<MirAsmOperand>, s: LoweringView, n: nat)
    requires
        ready(c, s),
        operands_lowered(c.frame, operands, s, n) is Some,
    ensures
        ({
            let o = operands_lowered(c.frame, operands, s, n)->0;
            made(c, s, Lowered { state: o.state, values: o.args })
        }),
    decreases operands, 0int, n,
{
    if n == 0 || n > operands.len() {
        lemma_same(c, s);
    } else {
        lemma_operands(c, operands, s, (n - 1) as nat);
        let before = operands_lowered(c.frame, operands, s, (n - 1) as nat)->0;
        lemma_operand(c, &operands[n - 1], s, before);
    }
}

proof fn lemma_operand(c: Scope, operand: &MirAsmOperand, s: LoweringView, o: Operands)
    requires
        ready(c, s),
        made(c, s, Lowered { state: o.state, values: o.args }),
        operand_lowered(c.frame, *operand, o) is Some,
    ensures
        ({
            let after = operand_lowered(c.frame, *operand, o)->0;
            made(c, s, Lowered { state: after.state, values: after.args })
        }),
    decreases operand, 0int, 0nat,
{
    match &operand.kind {
        MirAsmOperandKind::Reg { value, .. } => {
            lemma_ready(c, s, o.state);
            let lowered = expr_lowered(c.frame, *value, o.state);
            lemma_expr(c, value, o.state);
            lemma_first(c, o.state, lowered);
            lemma_extended(
                c,
                s,
                Lowered { state: o.state, values: o.args },
                first_of(lowered)->0,
            );
        },
        MirAsmOperandKind::Comp { .. } => {},
    }
}

/// Lowering a machine-code statement keeps a function sound.
pub(crate) proof fn lemma_code(c: Scope, code: &MirInlineAsm, s: LoweringView)
    requires
        ready(c, s),
        code_lowered(c.frame, *code, s) is Some,
    ensures
        kept(c, s, code_lowered(c.frame, *code, s)->0),
    decreases code, 0int, 0nat,
{
    let arch = c.frame.target.arch;
    lemma_operands(c, code.operands@, s, code.operands@.len());
    let o = operands_lowered(c.frame, code.operands@, s, code.operands@.len())->0;
    lemma_passed(c, o.state, o.args, o.args.len());
    let handed = passed(o.state, o.args, o.args.len());
    lemma_kept_then(c, s, o.state, handed);
    let statement = StatementView {
        text: rendered_template(code.template@, o.positional, o.named)->0,
        constraints: constraints_from(o.texts, code.clobbers@, arch),
        intel: arch is X86_64 || arch is X86,
    };
    let stated = LoweringView { statements: handed.statements.push(statement), ..handed };
    lemma_statement(c, handed, statement);
    lemma_kept_then(c, s, handed, stated);
    let op = Op::InlineCode {
        statement: handed.statements.len() as usize,
        count: o.args.len() as usize,
    };
    lemma_push(c, stated, op, None);
    lemma_kept_then(c, s, stated, stated.push(op, None));
}

/// Lowering an expression keeps a function sound, and there are the
/// expression's values.
#[verifier::rlimit(60)]
pub(crate) proof fn lemma_expr(c: Scope, node: &MirExprNode, s: LoweringView)
    requires
        ready(c, s),
        expr_lowered(c.frame, *node, s) is Some,
    ensures
        made(c, s, expr_lowered(c.frame, *node, s)->0),
    decreases node, 0int, 0nat,
{
    let pb = c.frame.pb();
    match &node.kind {
        MirExpr::Str(text) => {
            lemma_bytes(c, s, text@);
        },
        MirExpr::ByteString(text) => {
            lemma_bytes(c, s, text@);
        },
        MirExpr::Const(value) => {
            let value: &ConstValue = &**value;
            lemma_const(c, s, *value, &node.ty, pb);
        },
        MirExpr::InlineAsm(code) => {
            lemma_code(c, code, s);
        },
        MirExpr::FunctionCall(call) => {
            lemma_call(c, call, s);
        },
        MirExpr::SpecCoerce(coerce) => {
            lemma_coerce(c, coerce, &node.ty, s);
        },
        MirExpr::DynamicCall(call) => {
            lemma_dynamic(c, call, s);
        },
        MirExpr::Number(number) => {
            let leaf = leaves_spec(node.ty, pb)[0];
            lemma_scalar(c, s, leaf, *number, pb);
            lemma_having(c, s, scalar_of(leaf, *number, pb)->0);
        },
        MirExpr::Bool(_) => {
            lemma_same(c, s);
        },
        MirExpr::Sizeof(_) => {
            lemma_same(c, s);
        },
        MirExpr::Char(_) => {
            lemma_same(c, s);
        },
        MirExpr::Place(place) => {
            lemma_place_lowered(c, place, s);
        },
        MirExpr::Assignment(assignment) => {
            lemma_assigned(c, assignment, s);
        },
        MirExpr::AddressOf(place) => {
            lemma_place(c, place, s);
            let p = place_resolved(c.frame, *place, s)->0;
            lemma_addressed(c, p.state, p.storage, pb);
            lemma_made_then(c, s, p.state, addressed(p.state, p.storage, pb)->0);
        },
        MirExpr::Negate(base) => {
            let base: &MirExprNode = &**base;
            let lowered = expr_lowered(c.frame, *base, s);
            lemma_expr(c, base, s);
            lemma_first(c, s, lowered);
            let value = first_of(lowered)->0;
            let op = if is_float(base.ty, (pb * 8) as u32) {
                Op::FloatNeg(value.values[0])
            } else {
                Op::IntNeg(value.values[0])
            };
            lemma_define(c, value.state, op, value.values[0].ty);
            lemma_made_then(
                c,
                s,
                value.state,
                value.state.define(op, value.values[0].ty),
            );
        },
        MirExpr::BitNot(base) => {
            let base: &MirExprNode = &**base;
            let lowered = expr_lowered(c.frame, *base, s);
            lemma_expr(c, base, s);
            lemma_first(c, s, lowered);
            let value = first_of(lowered)->0;
            let op = Op::Not(value.values[0]);
            lemma_define(c, value.state, op, value.values[0].ty);
            lemma_made_then(
                c,
                s,
                value.state,
                value.state.define(op, value.values[0].ty),
            );
        },
        MirExpr::BinaryOp(binary) => {
            lemma_binary(c, binary, &node.ty, s);
        },
        MirExpr::ArrayLiteral(elements) => {
            lemma_nodes(c, elements@, s, elements@.len());
        },
        MirExpr::StructLiteral(fields) => {
            lemma_struct(c, fields@, &node.ty, s);
        },
        MirExpr::EnumConstruct(construct) => {
            lemma_constructed(c, construct, &node.ty, s);
        },
        MirExpr::UnionConstruct(field) => {
            let field: &MirFieldValue = &**field;
            lemma_union(c, field, &node.ty, s);
        },
        MirExpr::Slice(slice) => {
            lemma_slice(c, slice, s);
        },
        MirExpr::Cast(cast) => {
            lemma_cast(c, cast, s);
        },
    }
}

} // verus!
