//! Constants as values.

use crate::checked::NumberValue;
use crate::codegen::constants::{
    as_nats, body_offsets, build_const_slice_data, build_target_data, const_fits, dynamic_offsets,
    element_identities, elements_fit, elements_pooled, fields_fit, forward, header_offsets,
    moved, offsets_of_body, offsets_of_dynamic, offsets_of_header, paired, place_of, pooled,
    target_identity, target_pooled, text_bytes, text_object, DataKey, KeyView,
};
use crate::codegen::cranelift::{
    cranelift_type, leaf_ir, leaves_width, loaded, pointer_ir, pointer_type, slot_for,
    stack_slot_for, stored, IrType, Lowered, Lowering, LoweringView, Op, PlaceStorage, SlotData,
    Storage,
};
use crate::codegen::float_bits::{narrow, narrowed};
use crate::layout::{
    enum_measurable, fields_measurable, leaves_of, leaves_spec, measurable, parts_measurable,
    size_of, total_bytes, variants_measurable, Leaf,
};
use crate::order::code_point;
use crate::resolved_type::{ConstValue, ResolvedEnumType, ResolvedField, ResolvedType};
use std::rc::Rc;
use vstd::prelude::*;
use vstd::utf8::encode_utf8;

verus! {

/// An unsigned number as the signed one with the same bits.
pub open spec fn wrapped(v: u64) -> i64 {
    if v >= 0x8000_0000_0000_0000 {
        (v - 0x1_0000_0000_0000_0000) as i64
    } else {
        v as i64
    }
}

pub fn wrap(v: u64) -> (signed: i64)
    ensures
        signed == wrapped(v),
{
    if v >= 0x8000_0000_0000_0000 {
        (v as i128 - 0x1_0000_0000_0000_0000i128) as i64
    } else {
        v as i64
    }
}

/// A number as a value of a type; a float is emitted in the width of its type.
pub open spec fn number_emitted(s: LoweringView, number: NumberValue, ir: IrType) -> Lowered {
    match number {
        NumberValue::Signed(v) => s.define(Op::Iconst(v), ir),
        NumberValue::Unsigned(v) => s.define(Op::Iconst(wrapped(v)), ir),
        NumberValue::Float(bits) => if ir is F32 {
            s.define(Op::F32Const(narrowed(bits)), IrType::F32)
        } else {
            s.define(Op::F64Const(bits), IrType::F64)
        },
    }
}

/// The address of data of the pool, behind other values.
pub open spec fn data_address(s: LoweringView, key: KeyView, pointer_bytes: u32) -> Option<
    Lowered,
> {
    match place_of(s.pool, key) {
        Some(index) => Some(s.define(Op::DataAddr(index), pointer_ir(pointer_bytes))),
        None => None,
    }
}

/// An address and a length as the two values of a reference to a sequence;
/// the length comes first.
pub open spec fn sequence_emitted(
    s: LoweringView,
    pool: Seq<crate::codegen::constants::ObjectView>,
    key: KeyView,
    length: nat,
    pointer_bytes: u32,
) -> Option<Lowered> {
    let counted = s.push(Op::Iconst(wrapped(length as u64)), Some(IrType::I32));
    match data_address(counted.with_pool(pool), key, pointer_bytes) {
        Some(found) => Some(Lowered { values: found.values.push(s.next()), ..found }),
        None => None,
    }
}

/// A string as its address and its length in bytes.
pub open spec fn bytes_emitted(s: LoweringView, text: Seq<char>, pointer_bytes: u32) -> Option<
    Lowered,
> {
    sequence_emitted(
        s,
        pooled(s.pool, text_object(text)),
        KeyView::Text(encode_utf8(text)),
        encode_utf8(text).len(),
        pointer_bytes,
    )
}

/// Zeros stored over the first `n` leaves from `start` on.
pub open spec fn zero_filled(
    s: LoweringView,
    leaves: Seq<Leaf>,
    slot: usize,
    start: u32,
    pointer_bytes: u32,
    n: nat,
) -> Option<LoweringView>
    decreases n,
{
    if n == 0 {
        Some(s)
    } else {
        match zero_filled(s, leaves, slot, start, pointer_bytes, (n - 1) as nat) {
            Some(before) => match moved(
                start,
                leaves_width(leaves, pointer_bytes, (n - 1) as nat),
            ) {
                Some(offset) => Some(
                    before.push(Op::Iconst(0), Some(leaf_ir(leaves[n - 1], pointer_bytes))).push(
                        Op::StackStore { value: before.next(), slot, offset },
                        None,
                    ),
                ),
                None => None,
            },
            None => None,
        }
    }
}

/// A constant as values of its type.
pub open spec fn const_emitted(
    s: LoweringView,
    value: ConstValue,
    ty: ResolvedType,
    pointer_bytes: u32,
) -> Option<Lowered>
    decreases ty, 0int, 0nat,
{
    match value {
        ConstValue::Number(number) => Some(
            number_emitted(
                s,
                number,
                leaf_ir(leaves_spec(ty, pointer_bytes)[0], pointer_bytes),
            ),
        ),
        ConstValue::Bool(flag) => Some(
            s.define(
                Op::Iconst(
                    if flag {
                        1
                    } else {
                        0
                    },
                ),
                IrType::I8,
            ),
        ),
        ConstValue::Char(c) => Some(s.define(Op::Iconst(c as i64), IrType::I32)),
        ConstValue::Str(text) => bytes_emitted(s, text@, pointer_bytes),
        ConstValue::Slice(elements) => match ty {
            ResolvedType::Slice { item, .. } => match elements_pooled(
                elements@,
                *item,
                s.pool,
                pointer_bytes,
            ) {
                Some(pool) => sequence_emitted(
                    s,
                    pool,
                    KeyView::Blob(
                        element_identities(elements@, *item, elements@.len(), pointer_bytes),
                    ),
                    elements@.len(),
                    pointer_bytes,
                ),
                None => None,
            },
            _ => None,
        },
        ConstValue::Array(elements) => match ty {
            ResolvedType::SizedArray(item, _) => elements_emitted(
                s,
                elements@,
                *item,
                elements@.len(),
                pointer_bytes,
            ),
            _ => None,
        },
        ConstValue::Struct(fields) => match ty {
            ResolvedType::Struct(cell) => fields_emitted(
                s,
                fields@,
                cell.fields@,
                paired(fields@.len(), cell.fields@.len()),
                pointer_bytes,
            ),
            _ => None,
        },
        ConstValue::Enum { variant_index, tag, dynamic_fields, fields, .. } => match ty {
            ResolvedType::Enum { cell, .. } => if variant_index < cell.variants@.len() {
                let variant = cell.variants@[variant_index as int];
                let slot = s.next_slot();
                match prefix_stored(
                    s.with_slot(slot_for(ty, pointer_bytes)),
                    tag,
                    variant.header_values@,
                    *cell,
                    slot,
                    pointer_bytes,
                ) {
                    Some(headed) => match fields_stored(
                        headed,
                        dynamic_fields@,
                        cell.dynamic_fields@,
                        dynamic_offsets(*cell, pointer_bytes),
                        slot,
                        paired(dynamic_fields@.len(), cell.dynamic_fields@.len()),
                        pointer_bytes,
                    ) {
                        Some(shared) => match fields_stored(
                            shared,
                            fields@,
                            variant.fields@,
                            body_offsets(*cell, variant_index as int, pointer_bytes),
                            slot,
                            paired(fields@.len(), variant.fields@.len()),
                            pointer_bytes,
                        ) {
                            Some(whole) => loaded(
                                whole,
                                Storage::Slot { slot, offset: 0 },
                                ty,
                                pointer_bytes,
                            ),
                            None => None,
                        },
                        None => None,
                    },
                    None => None,
                }
            } else {
                None
            },
            _ => None,
        },
        ConstValue::Union { field_index, value } => match ty {
            ResolvedType::Union(cell) => if field_index < cell.fields@.len() {
                let slot = s.next_slot();
                let leaves = leaves_spec(ty, pointer_bytes);
                match zero_filled(
                    s.with_slot(
                        SlotData { size: size_of(ty, pointer_bytes) as u32, align_shift: 4 },
                    ),
                    leaves,
                    slot,
                    0,
                    pointer_bytes,
                    leaves.len(),
                ) {
                    Some(cleared) => match const_emitted(
                        cleared,
                        *value,
                        cell.fields@[field_index as int].ty,
                        pointer_bytes,
                    ) {
                        Some(field) => match stored(
                            field.state,
                            Storage::Slot { slot, offset: 0 },
                            field.values,
                            field.values.len(),
                        ) {
                            Some(whole) => loaded(
                                whole,
                                Storage::Slot { slot, offset: 0 },
                                ty,
                                pointer_bytes,
                            ),
                            None => None,
                        },
                        None => None,
                    },
                    None => None,
                }
            } else {
                None
            },
            _ => None,
        },
        ConstValue::Ref(inner) => match ty {
            ResolvedType::Pointer { pointee, .. } => match target_pooled(
                *inner,
                *pointee,
                s.pool,
                pointer_bytes,
            ) {
                Some(pool) => data_address(
                    s.with_pool(pool),
                    KeyView::Blob(target_identity(*inner, *pointee, pointer_bytes)),
                    pointer_bytes,
                ),
                None => None,
            },
            _ => None,
        },
    }
}

/// The values of the first `n` elements, one after the other.
pub open spec fn elements_emitted(
    s: LoweringView,
    values: Seq<ConstValue>,
    item: ResolvedType,
    n: nat,
    pointer_bytes: u32,
) -> Option<Lowered>
    decreases item, 1int, n,
{
    if n == 0 {
        Some(Lowered { state: s, values: Seq::empty() })
    } else {
        match elements_emitted(s, values, item, (n - 1) as nat, pointer_bytes) {
            Some(before) => match const_emitted(
                before.state,
                values[n - 1],
                item,
                pointer_bytes,
            ) {
                Some(last) => Some(Lowered { values: before.values + last.values, ..last }),
                None => None,
            },
            None => None,
        }
    }
}

/// The values of the first `n` fields, one after the other.
pub open spec fn fields_emitted(
    s: LoweringView,
    values: Seq<ConstValue>,
    fields: Seq<ResolvedField>,
    n: nat,
    pointer_bytes: u32,
) -> Option<Lowered>
    decreases fields, 0int, n,
{
    if n == 0 || n > fields.len() {
        Some(Lowered { state: s, values: Seq::empty() })
    } else {
        match fields_emitted(s, values, fields, (n - 1) as nat, pointer_bytes) {
            Some(before) => match const_emitted(
                before.state,
                values[n - 1],
                fields[n - 1].ty,
                pointer_bytes,
            ) {
                Some(last) => Some(Lowered { values: before.values + last.values, ..last }),
                None => None,
            },
            None => None,
        }
    }
}

/// A constant stored `at` bytes into a slot.
pub open spec fn field_stored(
    s: LoweringView,
    value: ConstValue,
    ty: ResolvedType,
    slot: usize,
    at: nat,
    pointer_bytes: u32,
) -> Option<LoweringView>
    decreases ty, 1int, 0nat,
{
    match const_emitted(s, value, ty, pointer_bytes) {
        Some(field) => match moved(0, at) {
            Some(offset) => stored(
                field.state,
                Storage::Slot { slot, offset },
                field.values,
                field.values.len(),
            ),
            None => None,
        },
        None => None,
    }
}

/// The first `n` field values, each stored where its field lies in a slot.
pub open spec fn fields_stored(
    s: LoweringView,
    values: Seq<ConstValue>,
    fields: Seq<ResolvedField>,
    offsets: Seq<nat>,
    slot: usize,
    n: nat,
    pointer_bytes: u32,
) -> Option<LoweringView>
    decreases fields, 0int, n,
{
    if n == 0 || n > fields.len() {
        Some(s)
    } else {
        match fields_stored(s, values, fields, offsets, slot, (n - 1) as nat, pointer_bytes) {
            Some(before) => field_stored(
                before,
                values[n - 1],
                fields[n - 1].ty,
                slot,
                offsets[n - 1],
                pointer_bytes,
            ),
            None => None,
        }
    }
}

/// The tag and the header of a variant stored in a slot.
pub open spec fn prefix_stored(
    s: LoweringView,
    tag: NumberValue,
    header: Seq<ConstValue>,
    cell: ResolvedEnumType,
    slot: usize,
    pointer_bytes: u32,
) -> Option<LoweringView>
    decreases cell, 0int, 0nat,
{
    let emitted = number_emitted(
        s,
        tag,
        leaf_ir(leaves_spec(cell.tag_type, pointer_bytes)[0], pointer_bytes),
    );
    match stored(emitted.state, Storage::Slot { slot, offset: 0 }, emitted.values, 1) {
        Some(tagged) => fields_stored(
            tagged,
            header,
            cell.header@,
            header_offsets(cell, pointer_bytes),
            slot,
            paired(header.len(), cell.header@.len()),
            pointer_bytes,
        ),
        None => None,
    }
}

proof fn lemma_elements_stop(
    s: LoweringView,
    values: Seq<ConstValue>,
    item: &ResolvedType,
    n: nat,
    m: nat,
    pointer_bytes: u32,
)
    requires
        n <= m,
        elements_emitted(s, values, *item, n, pointer_bytes) is None,
    ensures
        elements_emitted(s, values, *item, m, pointer_bytes) is None,
    decreases m,
{
    if n < m {
        lemma_elements_stop(s, values, item, n, (m - 1) as nat, pointer_bytes);
    }
}

proof fn lemma_fields_stop(
    s: LoweringView,
    values: Seq<ConstValue>,
    fields: Seq<ResolvedField>,
    n: nat,
    m: nat,
    pointer_bytes: u32,
)
    requires
        n <= m <= fields.len(),
        fields_emitted(s, values, fields, n, pointer_bytes) is None,
    ensures
        fields_emitted(s, values, fields, m, pointer_bytes) is None,
    decreases m,
{
    if n < m {
        lemma_fields_stop(s, values, fields, n, (m - 1) as nat, pointer_bytes);
    }
}

proof fn lemma_storing_stops(
    s: LoweringView,
    values: Seq<ConstValue>,
    fields: Seq<ResolvedField>,
    offsets: Seq<nat>,
    slot: usize,
    n: nat,
    m: nat,
    pointer_bytes: u32,
)
    requires
        n <= m <= fields.len(),
        fields_stored(s, values, fields, offsets, slot, n, pointer_bytes) is None,
    ensures
        fields_stored(s, values, fields, offsets, slot, m, pointer_bytes) is None,
    decreases m,
{
    if n < m {
        lemma_storing_stops(s, values, fields, offsets, slot, n, (m - 1) as nat, pointer_bytes);
    }
}

proof fn lemma_filling_stops(
    s: LoweringView,
    leaves: Seq<Leaf>,
    slot: usize,
    start: u32,
    pointer_bytes: u32,
    n: nat,
    m: nat,
)
    requires
        n <= m,
        zero_filled(s, leaves, slot, start, pointer_bytes, n) is None,
    ensures
        zero_filled(s, leaves, slot, start, pointer_bytes, m) is None,
    decreases m,
{
    if n < m {
        lemma_filling_stops(s, leaves, slot, start, pointer_bytes, n, (m - 1) as nat);
    }
}

/// One value.
pub fn one_value(value: usize) -> (values: Vec<usize>)
    ensures
        values@ == seq![value],
{
    let mut values: Vec<usize> = Vec::new();
    values.push(value);
    assert(values@ =~= seq![value]);
    values
}

impl Lowering {
    /// A number as a value of a type.
    pub fn emit_number(&mut self, number: &NumberValue, ir: IrType) -> (value: usize)
        ensures
            final(self)@ == number_emitted(old(self)@, *number, ir).state,
            seq![value] == number_emitted(old(self)@, *number, ir).values,
    {
        match number {
            NumberValue::Signed(v) => self.define(Op::Iconst(*v), ir),
            NumberValue::Unsigned(v) => self.define(Op::Iconst(wrap(*v)), ir),
            NumberValue::Float(bits) => if ir == IrType::F32 {
                self.define(Op::F32Const(narrow(*bits)), IrType::F32)
            } else {
                self.define(Op::F64Const(*bits), IrType::F64)
            },
        }
    }

    fn emit_data_address(&mut self, key: &DataKey, pointer_bytes: u32) -> (value: Option<usize>)
        ensures
            match data_address(old(self)@, key@, pointer_bytes) {
                Some(lowered) => {
                    &&& value is Some
                    &&& lowered.values == seq![value->0]
                    &&& final(self)@ == lowered.state
                },
                None => value is None,
            },
    {
        match self.pool.position(key) {
            Some(index) => {
                let value: usize = self.define(
                    Op::DataAddr(index),
                    pointer_type(pointer_bytes),
                );
                Some(value)
            },
            None => None,
        }
    }

    /// A string as its address and its length in bytes.
    pub fn emit_bytes(&mut self, text: &String, pointer_bytes: u32) -> (values: Option<Vec<usize>>)
        ensures
            match bytes_emitted(old(self)@, text@, pointer_bytes) {
                Some(lowered) => {
                    &&& values is Some
                    &&& values->0@ == lowered.values
                    &&& final(self)@ == lowered.state
                },
                None => values is None,
            },
    {
        let bytes: Vec<u8> = text_bytes(text);
        let length: usize = self.define(Op::Iconst(wrap(bytes.len() as u64)), IrType::I32);
        let ghost counted = self@;
        self.pool.add_text(text);
        assert(self@ == counted.with_pool(self.pool@));
        match self.emit_data_address(&DataKey::Text(bytes), pointer_bytes) {
            Some(address) => {
                let mut values: Vec<usize> = one_value(address);
                values.push(length);
                Some(values)
            },
            None => None,
        }
    }

    /// Stores zeros over leaves of a slot.
    pub fn zero_fill(
        &mut self,
        leaves: &Vec<Leaf>,
        slot: usize,
        start: u32,
        pointer_bytes: u32,
    ) -> (done: bool)
        ensures
            match zero_filled(old(self)@, leaves@, slot, start, pointer_bytes, leaves@.len()) {
                Some(after) => done && final(self)@ == after,
                None => !done,
            },
    {
        let ghost before = self@;
        let mut along: u64 = 0;
        let mut i: usize = 0;
        while i < leaves.len()
            invariant
                i <= leaves@.len(),
                before == old(self)@,
                zero_filled(before, leaves@, slot, start, pointer_bytes, i as nat) == Some(self@),
                along == leaves_width(leaves@, pointer_bytes, i as nat),
                along <= 0x1_0000_0007,
            decreases leaves.len() - i,
        {
            let ir: IrType = cranelift_type(leaves[i], pointer_bytes);
            let at: Option<u32> = if along > 0xffff_ffff {
                None
            } else {
                forward(start, along as u32)
            };
            match at {
                Some(offset) => {
                    let value: usize = self.define(Op::Iconst(0), ir);
                    self.perform(Op::StackStore { value, slot, offset });
                },
                None => {
                    proof {
                        lemma_filling_stops(
                            before,
                            leaves@,
                            slot,
                            start,
                            pointer_bytes,
                            (i + 1) as nat,
                            leaves@.len(),
                        );
                    }
                    return false;
                },
            }
            along = along + ir.bytes() as u64;
            i = i + 1;
        }
        true
    }
}

proof fn lemma_parts_fit(ty: &ResolvedType, pointer_bytes: u32)
    requires
        measurable(*ty, pointer_bytes),
    ensures
        match *ty {
            ResolvedType::Struct(cell) => fields_measurable(cell.fields@, pointer_bytes),
            ResolvedType::Union(cell) => fields_measurable(cell.fields@, pointer_bytes),
            ResolvedType::Enum { cell, .. } => {
                &&& enum_measurable(*cell, pointer_bytes)
                &&& measurable(cell.tag_type, pointer_bytes)
                &&& fields_measurable(cell.header@, pointer_bytes)
                &&& fields_measurable(cell.dynamic_fields@, pointer_bytes)
                &&& forall|i: int|
                    0 <= i < cell.variants@.len() ==> fields_measurable(
                        #[trigger] cell.variants@[i].fields@,
                        pointer_bytes,
                    )
            },
            _ => true,
        },
{
    assert(parts_measurable(*ty, pointer_bytes));
    match ty {
        ResolvedType::Enum { cell, .. } => {
            assert(variants_measurable(cell.variants@, pointer_bytes));
            assert(parts_measurable(
                ResolvedType::Enum { cell: *cell, variant: None },
                pointer_bytes,
            ));
        },
        _ => {},
    }
}

impl Lowering {
    /// A constant as values of its type.
    pub fn emit_const_value(
        &mut self,
        value: &ConstValue,
        ty: &ResolvedType,
        pointer_bytes: u32,
    ) -> (values: Option<Vec<usize>>)
        requires
            measurable(*ty, pointer_bytes),
            const_fits(*value, *ty, pointer_bytes),
        ensures
            match const_emitted(old(self)@, *value, *ty, pointer_bytes) {
                Some(lowered) => {
                    &&& values is Some
                    &&& values->0@ == lowered.values
                    &&& final(self)@ == lowered.state
                },
                None => values is None,
            },
        decreases ty, 0int,
    {
        proof {
            lemma_parts_fit(ty, pointer_bytes);
        }
        match value {
            ConstValue::Number(number) => {
                let leaves: Vec<Leaf> = leaves_of(ty, pointer_bytes);
                let found: usize = self.emit_number(
                    number,
                    cranelift_type(leaves[0], pointer_bytes),
                );
                Some(one_value(found))
            },
            ConstValue::Bool(flag) => {
                let bit: i64 = if *flag {
                    1
                } else {
                    0
                };
                let found: usize = self.define(Op::Iconst(bit), IrType::I8);
                Some(one_value(found))
            },
            ConstValue::Char(c) => {
                let found: usize = self.define(Op::Iconst(code_point(*c) as i64), IrType::I32);
                Some(one_value(found))
            },
            ConstValue::Str(text) => self.emit_bytes(text, pointer_bytes),
            ConstValue::Slice(elements) => match ty {
                ResolvedType::Slice { item, .. } => self.emit_const_slice(
                    elements,
                    item,
                    pointer_bytes,
                ),
                _ => None,
            },
            ConstValue::Array(elements) => match ty {
                ResolvedType::SizedArray(item, _) => self.emit_elements(
                    elements,
                    item,
                    pointer_bytes,
                ),
                _ => None,
            },
            ConstValue::Struct(fields) => match ty {
                ResolvedType::Struct(cell) => self.emit_fields(fields, &cell.fields, pointer_bytes),
                _ => None,
            },
            ConstValue::Enum { variant_index, tag, dynamic_fields, fields, .. } => match ty {
                ResolvedType::Enum { cell, .. } => {
                    let variant = &cell.variants[*variant_index];
                    assert(fields_measurable(
                        cell.variants@[*variant_index as int].fields@,
                        pointer_bytes,
                    ));
                    let slot: usize = self.create_slot(stack_slot_for(ty, pointer_bytes));
                    if !self.store_prefix(
                        tag,
                        &variant.header_values,
                        cell,
                        slot,
                        pointer_bytes,
                    ) {
                        return None;
                    }
                    let shared: Vec<u32> = offsets_of_dynamic(cell, pointer_bytes);
                    if !self.store_fields(
                        dynamic_fields,
                        &cell.dynamic_fields,
                        &shared,
                        slot,
                        pointer_bytes,
                    ) {
                        return None;
                    }
                    let own: Vec<u32> = offsets_of_body(cell, *variant_index, pointer_bytes);
                    if !self.store_fields(fields, &variant.fields, &own, slot, pointer_bytes) {
                        return None;
                    }
                    self.load_scalars(&PlaceStorage::Slot { slot, offset: 0 }, ty, pointer_bytes)
                },
                _ => None,
            },
            ConstValue::Union { field_index, value: inner } => match ty {
                ResolvedType::Union(cell) => {
                    let slot: usize = self.create_slot(
                        SlotData { size: total_bytes(ty, pointer_bytes), align_shift: 4 },
                    );
                    let leaves: Vec<Leaf> = leaves_of(ty, pointer_bytes);
                    if !self.zero_fill(&leaves, slot, 0, pointer_bytes) {
                        return None;
                    }
                    let field: &ResolvedField = &cell.fields[*field_index];
                    assert(measurable(cell.fields@[*field_index as int].ty, pointer_bytes));
                    let storage = PlaceStorage::Slot { slot, offset: 0 };
                    match self.emit_const_value(inner, &field.ty, pointer_bytes) {
                        Some(values) => if self.store_scalars(&storage, &values) {
                            self.load_scalars(&storage, ty, pointer_bytes)
                        } else {
                            None
                        },
                        None => None,
                    }
                },
                _ => None,
            },
            ConstValue::Ref(inner) => match ty {
                ResolvedType::Pointer { pointee, .. } => {
                    let ghost before = self@;
                    match build_target_data(&mut self.pool, inner, pointee, pointer_bytes) {
                        Some(key) => {
                            assert(self@ == before.with_pool(self.pool@));
                            match self.emit_data_address(&DataKey::Blob(key), pointer_bytes) {
                                Some(address) => Some(one_value(address)),
                                None => None,
                            }
                        },
                        None => None,
                    }
                },
                _ => None,
            },
        }
    }

    fn emit_const_slice(
        &mut self,
        elements: &Vec<ConstValue>,
        item: &ResolvedType,
        pointer_bytes: u32,
    ) -> (values: Option<Vec<usize>>)
        requires
            elements_fit(elements@, *item, pointer_bytes),
        ensures
            match elements_pooled(elements@, *item, old(self)@.pool, pointer_bytes) {
                Some(pool) => match sequence_emitted(
                    old(self)@,
                    pool,
                    KeyView::Blob(
                        element_identities(elements@, *item, elements@.len(), pointer_bytes),
                    ),
                    elements@.len(),
                    pointer_bytes,
                ) {
                    Some(lowered) => {
                        &&& values is Some
                        &&& values->0@ == lowered.values
                        &&& final(self)@ == lowered.state
                    },
                    None => values is None,
                },
                None => values is None,
            },
    {
        let length: usize = self.define(Op::Iconst(wrap(elements.len() as u64)), IrType::I32);
        let ghost counted = self@;
        match build_const_slice_data(&mut self.pool, elements, item, pointer_bytes) {
            Some(key) => {
                assert(self@ == counted.with_pool(self.pool@));
                match self.emit_data_address(&DataKey::Blob(key), pointer_bytes) {
                    Some(address) => {
                        let mut values: Vec<usize> = one_value(address);
                        values.push(length);
                        Some(values)
                    },
                    None => None,
                }
            },
            None => None,
        }
    }

    fn emit_elements(
        &mut self,
        elements: &Vec<ConstValue>,
        item: &ResolvedType,
        pointer_bytes: u32,
    ) -> (values: Option<Vec<usize>>)
        requires
            elements_fit(elements@, *item, pointer_bytes),
        ensures
            match elements_emitted(
                old(self)@,
                elements@,
                *item,
                elements@.len(),
                pointer_bytes,
            ) {
                Some(lowered) => {
                    &&& values is Some
                    &&& values->0@ == lowered.values
                    &&& final(self)@ == lowered.state
                },
                None => values is None,
            },
        decreases item, 1int,
    {
        let ghost before = self@;
        let mut values: Vec<usize> = Vec::new();
        let mut i: usize = 0;
        assert(values@ =~= Seq::empty());
        while i < elements.len()
            invariant
                i <= elements@.len(),
                elements_fit(elements@, *item, pointer_bytes),
                before == old(self)@,
                elements_emitted(before, elements@, *item, i as nat, pointer_bytes) == Some(
                    Lowered { state: self@, values: values@ },
                ),
            decreases elements.len() - i,
        {
            assert(const_fits(elements@[i as int], *item, pointer_bytes));
            match self.emit_const_value(&elements[i], item, pointer_bytes) {
                Some(mut more) => {
                    values.append(&mut more);
                },
                None => {
                    proof {
                        lemma_elements_stop(
                            before,
                            elements@,
                            item,
                            (i + 1) as nat,
                            elements@.len(),
                            pointer_bytes,
                        );
                    }
                    return None;
                },
            }
            i = i + 1;
        }
        Some(values)
    }

    fn emit_fields(
        &mut self,
        elements: &Vec<ConstValue>,
        fields: &Vec<ResolvedField>,
        pointer_bytes: u32,
    ) -> (values: Option<Vec<usize>>)
        requires
            fields_fit(elements@, fields@, pointer_bytes),
            fields_measurable(fields@, pointer_bytes),
        ensures
            match fields_emitted(
                old(self)@,
                elements@,
                fields@,
                paired(elements@.len(), fields@.len()),
                pointer_bytes,
            ) {
                Some(lowered) => {
                    &&& values is Some
                    &&& values->0@ == lowered.values
                    &&& final(self)@ == lowered.state
                },
                None => values is None,
            },
        decreases fields, 0int,
    {
        let ghost before = self@;
        let mut values: Vec<usize> = Vec::new();
        let mut i: usize = 0;
        assert(values@ =~= Seq::empty());
        while i < elements.len() && i < fields.len()
            invariant
                i <= elements@.len(),
                i <= fields@.len(),
                fields_fit(elements@, fields@, pointer_bytes),
                fields_measurable(fields@, pointer_bytes),
                before == old(self)@,
                fields_emitted(before, elements@, fields@, i as nat, pointer_bytes) == Some(
                    Lowered { state: self@, values: values@ },
                ),
            decreases elements.len() - i,
        {
            assert(const_fits(elements@[i as int], fields@[i as int].ty, pointer_bytes));
            assert(measurable(fields@[i as int].ty, pointer_bytes));
            match self.emit_const_value(&elements[i], &fields[i].ty, pointer_bytes) {
                Some(mut more) => {
                    values.append(&mut more);
                },
                None => {
                    proof {
                        lemma_fields_stop(
                            before,
                            elements@,
                            fields@,
                            (i + 1) as nat,
                            paired(elements@.len(), fields@.len()),
                            pointer_bytes,
                        );
                    }
                    return None;
                },
            }
            i = i + 1;
        }
        Some(values)
    }

    fn store_field(
        &mut self,
        value: &ConstValue,
        ty: &ResolvedType,
        slot: usize,
        at: u32,
        pointer_bytes: u32,
    ) -> (done: bool)
        requires
            measurable(*ty, pointer_bytes),
            const_fits(*value, *ty, pointer_bytes),
        ensures
            match field_stored(old(self)@, *value, *ty, slot, at as nat, pointer_bytes) {
                Some(after) => done && final(self)@ == after,
                None => !done,
            },
        decreases ty, 1int,
    {
        match self.emit_const_value(value, ty, pointer_bytes) {
            Some(values) => {
                self.store_scalars(&PlaceStorage::Slot { slot, offset: at }, &values)
            },
            None => false,
        }
    }

    fn store_fields(
        &mut self,
        elements: &Vec<ConstValue>,
        fields: &Vec<ResolvedField>,
        offsets: &Vec<u32>,
        slot: usize,
        pointer_bytes: u32,
    ) -> (done: bool)
        requires
            fields_fit(elements@, fields@, pointer_bytes),
            fields_measurable(fields@, pointer_bytes),
            offsets@.len() == fields@.len(),
        ensures
            match fields_stored(
                old(self)@,
                elements@,
                fields@,
                as_nats(offsets@),
                slot,
                paired(elements@.len(), fields@.len()),
                pointer_bytes,
            ) {
                Some(after) => done && final(self)@ == after,
                None => !done,
            },
        decreases fields, 0int,
    {
        let ghost before = self@;
        let ghost places = as_nats(offsets@);
        let mut i: usize = 0;
        while i < elements.len() && i < fields.len()
            invariant
                i <= elements@.len(),
                i <= fields@.len(),
                fields_fit(elements@, fields@, pointer_bytes),
                fields_measurable(fields@, pointer_bytes),
                offsets@.len() == fields@.len(),
                places == as_nats(offsets@),
                before == old(self)@,
                fields_stored(
                    before,
                    elements@,
                    fields@,
                    places,
                    slot,
                    i as nat,
                    pointer_bytes,
                ) == Some(self@),
            decreases elements.len() - i,
        {
            assert(const_fits(elements@[i as int], fields@[i as int].ty, pointer_bytes));
            assert(measurable(fields@[i as int].ty, pointer_bytes));
            assert(places[i as int] == offsets@[i as int] as nat);
            if !self.store_field(
                &elements[i],
                &fields[i].ty,
                slot,
                offsets[i],
                pointer_bytes,
            ) {
                proof {
                    lemma_storing_stops(
                        before,
                        elements@,
                        fields@,
                        places,
                        slot,
                        (i + 1) as nat,
                        paired(elements@.len(), fields@.len()),
                        pointer_bytes,
                    );
                }
                return false;
            }
            i = i + 1;
        }
        true
    }

    /// Stores the tag and the header of a variant.
    pub fn store_prefix(
        &mut self,
        tag: &NumberValue,
        header: &Vec<ConstValue>,
        cell: &ResolvedEnumType,
        slot: usize,
        pointer_bytes: u32,
    ) -> (done: bool)
        requires
            enum_measurable(*cell, pointer_bytes),
            leaves_spec(cell.tag_type, pointer_bytes).len() > 0,
            fields_fit(header@, cell.header@, pointer_bytes),
        ensures
            match prefix_stored(old(self)@, *tag, header@, *cell, slot, pointer_bytes) {
                Some(after) => done && final(self)@ == after,
                None => !done,
            },
        decreases cell, 0int,
    {
        assert(parts_measurable(
            ResolvedType::Enum { cell: Rc::new(*cell), variant: None },
            pointer_bytes,
        ));
        assert(measurable(cell.tag_type, pointer_bytes));
        assert(fields_measurable(cell.header@, pointer_bytes));
        let leaves: Vec<Leaf> = leaves_of(&cell.tag_type, pointer_bytes);
        let emitted: usize = self.emit_number(tag, cranelift_type(leaves[0], pointer_bytes));
        let values: Vec<usize> = one_value(emitted);
        if !self.store_scalars(&PlaceStorage::Slot { slot, offset: 0 }, &values) {
            return false;
        }
        let offsets: Vec<u32> = offsets_of_header(cell, pointer_bytes);
        self.store_fields(header, &cell.header, &offsets, slot, pointer_bytes)
    }
}

} // verus!
