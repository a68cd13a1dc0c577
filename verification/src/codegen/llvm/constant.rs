//! Constants as values.

use crate::checked::NumberValue;
use crate::codegen::constants::{
    as_nats, bits_of, body_offsets, build_const_slice_data, build_target_data, const_fits,
    dynamic_offsets, element_identities, elements_fit, elements_pooled, fields_fit, forward,
    header_offsets, moved, number_bits, offsets_of_body, offsets_of_dynamic, offsets_of_header, paired, place_of,
    pooled, target_identity, target_pooled, text_bytes, text_object, DataKey, KeyView,
    ObjectView,
};
use crate::codegen::llvm::{
    all_stored, const_int, const_zero, int_value, leaf_type, leaves_width, llvm_type,
    loaded_aligned, one_value, pointer_to, pointer_value, slot_of, stack_align, two_values, zero_of,
    Lowered, Lowering, LoweringView, Operand, PlaceStorage, SlotUse, Storage, Value, ValueType,
};
use crate::layout::{
    align_of, enum_measurable, fields_measurable, leaves_of, leaves_spec, measurable,
    parts_measurable, size_of, total_bytes, type_alignment, variants_measurable, Leaf,
};
use crate::order::code_point;
use crate::resolved_type::{ConstValue, ResolvedEnumType, ResolvedField, ResolvedType};
use std::rc::Rc;
use vstd::prelude::*;
use vstd::utf8::encode_utf8;

verus! {

/// A number as a constant of a leaf's type; nothing where one is a float and
/// the other is not.
pub open spec fn scalar_of(leaf: Leaf, number: NumberValue, pointer_bytes: u32) -> Option<Value> {
    let ty = leaf_type(leaf, pointer_bytes);
    let bits = number_bits(number, 8) as u64;
    if ty.floating() != (number is Float) {
        None
    } else if ty.floating() {
        Some(Value { ty, operand: Operand::Float(bits) })
    } else if ty is Ptr {
        Some(pointer_value(Operand::IntAddress(bits)))
    } else {
        Some(int_value(ty, bits))
    }
}

pub fn scalar_const(leaf: Leaf, number: &NumberValue, pointer_bytes: u32) -> (value: Option<Value>)
    ensures
        value == scalar_of(leaf, *number, pointer_bytes),
{
    let ty: ValueType = llvm_type(leaf, pointer_bytes);
    let bits: u64 = bits_of(number, 8);
    let float: bool = match number {
        NumberValue::Float(_) => true,
        _ => false,
    };
    if ty.is_float_type() != float {
        None
    } else if float {
        Some(Value { ty, operand: Operand::Float(bits) })
    } else if ty.is_pointer_type() {
        Some(pointer_to(Operand::IntAddress(bits)))
    } else {
        Some(const_int(ty, bits))
    }
}

/// A number as a value.
pub open spec fn number_emitted(
    s: LoweringView,
    number: NumberValue,
    leaf: Leaf,
    pointer_bytes: u32,
) -> Option<Lowered> {
    match scalar_of(leaf, number, pointer_bytes) {
        Some(value) => Some(s.having(value)),
        None => None,
    }
}

/// The address of data of the pool.
pub open spec fn data_value(pool: Seq<ObjectView>, key: KeyView) -> Option<Value> {
    match place_of(pool, key) {
        Some(index) => Some(pointer_value(Operand::Data(index))),
        None => None,
    }
}

/// An address and a length as the two values of a reference to a sequence.
pub open spec fn sequence_emitted(
    s: LoweringView,
    pool: Seq<ObjectView>,
    key: KeyView,
    length: nat,
) -> Option<Lowered> {
    match data_value(pool, key) {
        Some(data) => Some(
            Lowered {
                state: s.with_pool(pool),
                values: seq![data, int_value(ValueType::I32, length as u64)],
            },
        ),
        None => None,
    }
}

/// A string as its address and its length in bytes.
pub open spec fn bytes_emitted(s: LoweringView, text: Seq<char>) -> Option<Lowered> {
    sequence_emitted(
        s,
        pooled(s.pool, text_object(text)),
        KeyView::Text(encode_utf8(text)),
        encode_utf8(text).len(),
    )
}

/// Zeros stored over the first `n` leaves from `start` on.
pub open spec fn zero_filled(
    s: LoweringView,
    leaves: Seq<Leaf>,
    slot: Value,
    start: u32,
    pointer_bytes: u32,
    n: nat,
) -> Option<LoweringView>
    decreases n,
{
    if n == 0 {
        Some(s)
    } else {
        match zero_filled(s, leaves, slot, start, pointer_bytes, (n - 1) as nat) {
            Some(before) => match moved(
                start,
                leaves_width(leaves, pointer_bytes, (n - 1) as nat),
            ) {
                Some(offset) => all_stored(
                    before,
                    slot,
                    offset,
                    seq![zero_of(leaf_type(leaves[n - 1], pointer_bytes))],
                    1,
                    pointer_bytes,
                ),
                None => None,
            },
            None => None,
        }
    }
}

/// A `bool` as a constant.
pub open spec fn flag_value(flag: bool) -> Value {
    int_value(
        ValueType::I8,
        if flag {
            1
        } else {
            0
        },
    )
}

pub fn const_flag(flag: bool) -> (value: Value)
    ensures
        value == flag_value(flag),
{
    if flag {
        const_int(ValueType::I8, 1)
    } else {
        const_int(ValueType::I8, 0)
    }
}

/// A constant as values of its type.
pub open spec fn const_emitted(
    s: LoweringView,
    value: ConstValue,
    ty: ResolvedType,
    pointer_bytes: u32,
) -> Option<Lowered>
    decreases ty, 0int, 0nat,
{
    match value {
        ConstValue::Number(number) => number_emitted(
            s,
            number,
            leaves_spec(ty, pointer_bytes)[0],
            pointer_bytes,
        ),
        ConstValue::Bool(flag) => Some(s.having(flag_value(flag))),
        ConstValue::Char(c) => Some(s.having(int_value(ValueType::I32, c as u64))),
        ConstValue::Str(text) => bytes_emitted(s, text@),
        ConstValue::Slice(elements) => match ty {
            ResolvedType::Slice { item, .. } => match elements_pooled(
                elements@,
                *item,
                s.pool,
                pointer_bytes,
            ) {
                Some(pool) => sequence_emitted(
                    s,
                    pool,
                    KeyView::Blob(
                        element_identities(elements@, *item, elements@.len(), pointer_bytes),
                    ),
                    elements@.len(),
                ),
                None => None,
            },
            _ => None,
        },
        ConstValue::Array(elements) => match ty {
            ResolvedType::SizedArray(item, _) => elements_emitted(
                s,
                elements@,
                *item,
                elements@.len(),
                pointer_bytes,
            ),
            _ => None,
        },
        ConstValue::Struct(fields) => match ty {
            ResolvedType::Struct(cell) => fields_emitted(
                s,
                fields@,
                cell.fields@,
                paired(fields@.len(), cell.fields@.len()),
                pointer_bytes,
            ),
            _ => None,
        },
        ConstValue::Enum { variant_index, tag, dynamic_fields, fields, .. } => match ty {
            ResolvedType::Enum { cell, .. } => if variant_index < cell.variants@.len() {
                let variant = cell.variants@[variant_index as int];
                let slot = s.next_slot();
                match prefix_stored(
                    s.with_slot(
                        slot_of(
                            size_of(ty, pointer_bytes),
                            stack_align(ty),
                            SlotUse::EnumConst,
                        ),
                    ),
                    tag,
                    variant.header_values@,
                    *cell,
                    slot,
                    pointer_bytes,
                ) {
                    Some(headed) => match fields_stored(
                        headed,
                        dynamic_fields@,
                        cell.dynamic_fields@,
                        dynamic_offsets(*cell, pointer_bytes),
                        slot,
                        paired(dynamic_fields@.len(), cell.dynamic_fields@.len()),
                        pointer_bytes,
                    ) {
                        Some(shared) => match fields_stored(
                            shared,
                            fields@,
                            variant.fields@,
                            body_offsets(*cell, variant_index as int, pointer_bytes),
                            slot,
                            paired(fields@.len(), variant.fields@.len()),
                            pointer_bytes,
                        ) {
                            Some(whole) => loaded_aligned(
                                whole,
                                Storage::Memory { base: slot, offset: 0 },
                                ty,
                                pointer_bytes,
                            ),
                            None => None,
                        },
                        None => None,
                    },
                    None => None,
                }
            } else {
                None
            },
            _ => None,
        },
        ConstValue::Union { field_index, value } => match ty {
            ResolvedType::Union(cell) => if field_index < cell.fields@.len() {
                let slot = s.next_slot();
                let leaves = leaves_spec(ty, pointer_bytes);
                match zero_filled(
                    s.with_slot(
                        slot_of(size_of(ty, pointer_bytes), 16, SlotUse::UnionConst),
                    ),
                    leaves,
                    slot,
                    0,
                    pointer_bytes,
                    leaves.len(),
                ) {
                    Some(cleared) => match const_emitted(
                        cleared,
                        *value,
                        cell.fields@[field_index as int].ty,
                        pointer_bytes,
                    ) {
                        Some(field) => match all_stored(
                            field.state,
                            slot,
                            0,
                            field.values,
                            align_of(cell.fields@[field_index as int].ty) as u32,
                            pointer_bytes,
                        ) {
                            Some(whole) => loaded_aligned(
                                whole,
                                Storage::Memory { base: slot, offset: 0 },
                                ty,
                                pointer_bytes,
                            ),
                            None => None,
                        },
                        None => None,
                    },
                    None => None,
                }
            } else {
                None
            },
            _ => None,
        },
        ConstValue::Ref(inner) => match ty {
            ResolvedType::Pointer { pointee, .. } => match target_pooled(
                *inner,
                *pointee,
                s.pool,
                pointer_bytes,
            ) {
                Some(pool) => match data_value(
                    pool,
                    KeyView::Blob(target_identity(*inner, *pointee, pointer_bytes)),
                ) {
                    Some(data) => Some(s.with_pool(pool).having(data)),
                    None => None,
                },
                None => None,
            },
            _ => None,
        },
    }
}

/// The values of the first `n` elements, one after the other.
pub open spec fn elements_emitted(
    s: LoweringView,
    values: Seq<ConstValue>,
    item: ResolvedType,
    n: nat,
    pointer_bytes: u32,
) -> Option<Lowered>
    decreases item, 1int, n,
{
    if n == 0 {
        Some(Lowered { state: s, values: Seq::empty() })
    } else {
        match elements_emitted(s, values, item, (n - 1) as nat, pointer_bytes) {
            Some(before) => match const_emitted(
                before.state,
                values[n - 1],
                item,
                pointer_bytes,
            ) {
                Some(last) => Some(Lowered { values: before.values + last.values, ..last }),
                None => None,
            },
            None => None,
        }
    }
}

/// The values of the first `n` fields, one after the other.
pub open spec fn fields_emitted(
    s: LoweringView,
    values: Seq<ConstValue>,
    fields: Seq<ResolvedField>,
    n: nat,
    pointer_bytes: u32,
) -> Option<Lowered>
    decreases fields, 0int, n,
{
    if n == 0 || n > fields.len() {
        Some(Lowered { state: s, values: Seq::empty() })
    } else {
        match fields_emitted(s, values, fields, (n - 1) as nat, pointer_bytes) {
            Some(before) => match const_emitted(
                before.state,
                values[n - 1],
                fields[n - 1].ty,
                pointer_bytes,
            ) {
                Some(last) => Some(Lowered { values: before.values + last.values, ..last }),
                None => None,
            },
            None => None,
        }
    }
}

/// A constant stored `at` bytes into a slot.
pub open spec fn field_stored(
    s: LoweringView,
    value: ConstValue,
    ty: ResolvedType,
    slot: Value,
    at: nat,
    pointer_bytes: u32,
) -> Option<LoweringView>
    decreases ty, 1int, 0nat,
{
    match const_emitted(s, value, ty, pointer_bytes) {
        Some(field) => match moved(0, at) {
            Some(offset) => all_stored(
                field.state,
                slot,
                offset,
                field.values,
                align_of(ty) as u32,
                pointer_bytes,
            ),
            None => None,
        },
        None => None,
    }
}

/// The first `n` field values, each stored where its field lies in a slot.
pub open spec fn fields_stored(
    s: LoweringView,
    values: Seq<ConstValue>,
    fields: Seq<ResolvedField>,
    offsets: Seq<nat>,
    slot: Value,
    n: nat,
    pointer_bytes: u32,
) -> Option<LoweringView>
    decreases fields, 0int, n,
{
    if n == 0 || n > fields.len() {
        Some(s)
    } else {
        match fields_stored(s, values, fields, offsets, slot, (n - 1) as nat, pointer_bytes) {
            Some(before) => field_stored(
                before,
                values[n - 1],
                fields[n - 1].ty,
                slot,
                offsets[n - 1],
                pointer_bytes,
            ),
            None => None,
        }
    }
}

/// The tag and the header of a variant stored in a slot.
pub open spec fn prefix_stored(
    s: LoweringView,
    tag: NumberValue,
    header: Seq<ConstValue>,
    cell: ResolvedEnumType,
    slot: Value,
    pointer_bytes: u32,
) -> Option<LoweringView>
    decreases cell, 0int, 0nat,
{
    match scalar_of(leaves_spec(cell.tag_type, pointer_bytes)[0], tag, pointer_bytes) {
        Some(value) => match all_stored(
            s,
            slot,
            0,
            seq![value],
            align_of(cell.tag_type) as u32,
            pointer_bytes,
        ) {
            Some(tagged) => fields_stored(
                tagged,
                header,
                cell.header@,
                header_offsets(cell, pointer_bytes),
                slot,
                paired(header.len(), cell.header@.len()),
                pointer_bytes,
            ),
            None => None,
        },
        None => None,
    }
}

proof fn lemma_elements_stop(
    s: LoweringView,
    values: Seq<ConstValue>,
    item: &ResolvedType,
    n: nat,
    m: nat,
    pointer_bytes: u32,
)
    requires
        n <= m,
        elements_emitted(s, values, *item, n, pointer_bytes) is None,
    ensures
        elements_emitted(s, values, *item, m, pointer_bytes) is None,
    decreases m,
{
    if n < m {
        lemma_elements_stop(s, values, item, n, (m - 1) as nat, pointer_bytes);
    }
}

proof fn lemma_fields_stop(
    s: LoweringView,
    values: Seq<ConstValue>,
    fields: Seq<ResolvedField>,
    n: nat,
    m: nat,
    pointer_bytes: u32,
)
    requires
        n <= m <= fields.len(),
        fields_emitted(s, values, fields, n, pointer_bytes) is None,
    ensures
        fields_emitted(s, values, fields, m, pointer_bytes) is None,
    decreases m,
{
    if n < m {
        lemma_fields_stop(s, values, fields, n, (m - 1) as nat, pointer_bytes);
    }
}

proof fn lemma_storing_stops(
    s: LoweringView,
    values: Seq<ConstValue>,
    fields: Seq<ResolvedField>,
    offsets: Seq<nat>,
    slot: Value,
    n: nat,
    m: nat,
    pointer_bytes: u32,
)
    requires
        n <= m <= fields.len(),
        fields_stored(s, values, fields, offsets, slot, n, pointer_bytes) is None,
    ensures
        fields_stored(s, values, fields, offsets, slot, m, pointer_bytes) is None,
    decreases m,
{
    if n < m {
        lemma_storing_stops(s, values, fields, offsets, slot, n, (m - 1) as nat, pointer_bytes);
    }
}

proof fn lemma_filling_stops(
    s: LoweringView,
    leaves: Seq<Leaf>,
    slot: Value,
    start: u32,
    pointer_bytes: u32,
    n: nat,
    m: nat,
)
    requires
        n <= m,
        zero_filled(s, leaves, slot, start, pointer_bytes, n) is None,
    ensures
        zero_filled(s, leaves, slot, start, pointer_bytes, m) is None,
    decreases m,
{
    if n < m {
        lemma_filling_stops(s, leaves, slot, start, pointer_bytes, n, (m - 1) as nat);
    }
}

impl Lowering {
    fn data_pointer(&self, key: &DataKey) -> (value: Option<Value>)
        ensures
            value == data_value(self@.pool, key@),
    {
        match self.pool.position(key) {
            Some(index) => Some(pointer_to(Operand::Data(index))),
            None => None,
        }
    }

    /// A string as its address and its length in bytes.
    pub fn emit_bytes(&mut self, text: &String) -> (values: Option<Vec<Value>>)
        ensures
            match bytes_emitted(old(self)@, text@) {
                Some(lowered) => {
                    &&& values is Some
                    &&& values->0@ == lowered.values
                    &&& final(self)@ == lowered.state
                },
                None => values is None,
            },
    {
        let bytes: Vec<u8> = text_bytes(text);
        let length: Value = const_int(ValueType::I32, bytes.len() as u64);
        let ghost before = self@;
        self.pool.add_text(text);
        assert(self@ == before.with_pool(self.pool@));
        match self.data_pointer(&DataKey::Text(bytes)) {
            Some(address) => Some(two_values(address, length)),
            None => None,
        }
    }

    /// Stores zeros over leaves of a slot.
    pub fn zero_fill(
        &mut self,
        leaves: &Vec<Leaf>,
        slot: Value,
        start: u32,
        pointer_bytes: u32,
    ) -> (done: bool)
        ensures
            match zero_filled(old(self)@, leaves@, slot, start, pointer_bytes, leaves@.len()) {
                Some(after) => done && final(self)@ == after,
                None => !done,
            },
    {
        let ghost before = self@;
        let mut along: u64 = 0;
        let mut i: usize = 0;
        while i < leaves.len()
            invariant
                i <= leaves@.len(),
                before == old(self)@,
                zero_filled(before, leaves@, slot, start, pointer_bytes, i as nat) == Some(self@),
                along == leaves_width(leaves@, pointer_bytes, i as nat),
                along <= 0x1_ffff_fffe,
            decreases leaves.len() - i,
        {
            let ir: ValueType = llvm_type(leaves[i], pointer_bytes);
            let at: Option<u32> = if along > 0xffff_ffff {
                None
            } else {
                forward(start, along as u32)
            };
            let done: bool = match at {
                Some(offset) => self.store_scalars(
                    slot,
                    offset,
                    &one_value(const_zero(ir)),
                    1,
                    pointer_bytes,
                ),
                None => false,
            };
            if !done {
                proof {
                    lemma_filling_stops(
                        before,
                        leaves@,
                        slot,
                        start,
                        pointer_bytes,
                        (i + 1) as nat,
                        leaves@.len(),
                    );
                }
                return false;
            }
            along = along + ir.value_byte_width(pointer_bytes) as u64;
            i = i + 1;
        }
        true
    }
}

proof fn lemma_parts_fit(ty: &ResolvedType, pointer_bytes: u32)
    requires
        measurable(*ty, pointer_bytes),
    ensures
        match *ty {
            ResolvedType::Struct(cell) => fields_measurable(cell.fields@, pointer_bytes),
            ResolvedType::Union(cell) => fields_measurable(cell.fields@, pointer_bytes),
            ResolvedType::Enum { cell, .. } => {
                &&& enum_measurable(*cell, pointer_bytes)
                &&& measurable(cell.tag_type, pointer_bytes)
                &&& fields_measurable(cell.header@, pointer_bytes)
                &&& fields_measurable(cell.dynamic_fields@, pointer_bytes)
                &&& forall|i: int|
                    0 <= i < cell.variants@.len() ==> fields_measurable(
                        #[trigger] cell.variants@[i].fields@,
                        pointer_bytes,
                    )
            },
            _ => true,
        },
{
    assert(parts_measurable(*ty, pointer_bytes));
    match ty {
        ResolvedType::Enum { cell, .. } => {
            assert(variants_measurable(cell.variants@, pointer_bytes));
            assert(parts_measurable(
                ResolvedType::Enum { cell: *cell, variant: None },
                pointer_bytes,
            ));
        },
        _ => {},
    }
}

impl Lowering {
    /// A constant as values of its type.
    pub fn emit_const_value(
        &mut self,
        value: &ConstValue,
        ty: &ResolvedType,
        pointer_bytes: u32,
    ) -> (values: Option<Vec<Value>>)
        requires
            measurable(*ty, pointer_bytes),
            const_fits(*value, *ty, pointer_bytes),
        ensures
            match const_emitted(old(self)@, *value, *ty, pointer_bytes) {
                Some(lowered) => {
                    &&& values is Some
                    &&& values->0@ == lowered.values
                    &&& final(self)@ == lowered.state
                },
                None => values is None,
            },
        decreases ty, 0int,
    {
        proof {
            lemma_parts_fit(ty, pointer_bytes);
        }
        match value {
            ConstValue::Number(number) => {
                let leaves: Vec<Leaf> = leaves_of(ty, pointer_bytes);
                match scalar_const(leaves[0], number, pointer_bytes) {
                    Some(found) => Some(one_value(found)),
                    None => None,
                }
            },
            ConstValue::Bool(flag) => Some(one_value(const_flag(*flag))),
            ConstValue::Char(c) => Some(
                one_value(const_int(ValueType::I32, code_point(*c) as u64)),
            ),
            ConstValue::Str(text) => self.emit_bytes(text),
            ConstValue::Slice(elements) => match ty {
                ResolvedType::Slice { item, .. } => self.emit_const_slice(
                    elements,
                    item,
                    pointer_bytes,
                ),
                _ => None,
            },
            ConstValue::Array(elements) => match ty {
                ResolvedType::SizedArray(item, _) => self.emit_elements(
                    elements,
                    item,
                    pointer_bytes,
                ),
                _ => None,
            },
            ConstValue::Struct(fields) => match ty {
                ResolvedType::Struct(cell) => self.emit_fields(fields, &cell.fields, pointer_bytes),
                _ => None,
            },
            ConstValue::Enum { variant_index, tag, dynamic_fields, fields, .. } => match ty {
                ResolvedType::Enum { cell, .. } => {
                    let variant = &cell.variants[*variant_index];
                    assert(fields_measurable(
                        cell.variants@[*variant_index as int].fields@,
                        pointer_bytes,
                    ));
                    let slot: Value = self.slot_for(ty, SlotUse::EnumConst, pointer_bytes);
                    if !self.store_prefix(
                        tag,
                        &variant.header_values,
                        cell,
                        slot,
                        pointer_bytes,
                    ) {
                        return None;
                    }
                    let shared: Vec<u32> = offsets_of_dynamic(cell, pointer_bytes);
                    if !self.store_fields(
                        dynamic_fields,
                        &cell.dynamic_fields,
                        &shared,
                        slot,
                        pointer_bytes,
                    ) {
                        return None;
                    }
                    let own: Vec<u32> = offsets_of_body(cell, *variant_index, pointer_bytes);
                    if !self.store_fields(fields, &variant.fields, &own, slot, pointer_bytes) {
                        return None;
                    }
                    self.load_aligned(
                        &PlaceStorage::Memory { base: slot, offset: 0 },
                        ty,
                        pointer_bytes,
                    )
                },
                _ => None,
            },
            ConstValue::Union { field_index, value: inner } => match ty {
                ResolvedType::Union(cell) => {
                    let slot: Value = self.entry_alloca(
                        total_bytes(ty, pointer_bytes),
                        16,
                        SlotUse::UnionConst,
                    );
                    let leaves: Vec<Leaf> = leaves_of(ty, pointer_bytes);
                    if !self.zero_fill(&leaves, slot, 0, pointer_bytes) {
                        return None;
                    }
                    let field: &ResolvedField = &cell.fields[*field_index];
                    assert(measurable(cell.fields@[*field_index as int].ty, pointer_bytes));
                    let storage = PlaceStorage::Memory { base: slot, offset: 0 };
                    match self.emit_const_value(inner, &field.ty, pointer_bytes) {
                        Some(values) => if self.store_scalars(
                            slot,
                            0,
                            &values,
                            type_alignment(&field.ty),
                            pointer_bytes,
                        ) {
                            self.load_aligned(&storage, ty, pointer_bytes)
                        } else {
                            None
                        },
                        None => None,
                    }
                },
                _ => None,
            },
            ConstValue::Ref(inner) => match ty {
                ResolvedType::Pointer { pointee, .. } => {
                    let ghost before = self@;
                    match build_target_data(&mut self.pool, inner, pointee, pointer_bytes) {
                        Some(key) => {
                            assert(self@ == before.with_pool(self.pool@));
                            match self.data_pointer(&DataKey::Blob(key)) {
                                Some(address) => Some(one_value(address)),
                                None => None,
                            }
                        },
                        None => None,
                    }
                },
                _ => None,
            },
        }
    }

    fn emit_const_slice(
        &mut self,
        elements: &Vec<ConstValue>,
        item: &ResolvedType,
        pointer_bytes: u32,
    ) -> (values: Option<Vec<Value>>)
        requires
            elements_fit(elements@, *item, pointer_bytes),
        ensures
            match elements_pooled(elements@, *item, old(self)@.pool, pointer_bytes) {
                Some(pool) => match sequence_emitted(
                    old(self)@,
                    pool,
                    KeyView::Blob(
                        element_identities(elements@, *item, elements@.len(), pointer_bytes),
                    ),
                    elements@.len(),
                ) {
                    Some(lowered) => {
                        &&& values is Some
                        &&& values->0@ == lowered.values
                        &&& final(self)@ == lowered.state
                    },
                    None => values is None,
                },
                None => values is None,
            },
    {
        let length: Value = const_int(ValueType::I32, elements.len() as u64);
        let ghost counted = self@;
        match build_const_slice_data(&mut self.pool, elements, item, pointer_bytes) {
            Some(key) => {
                assert(self@ == counted.with_pool(self.pool@));
                match self.data_pointer(&DataKey::Blob(key)) {
                    Some(address) => Some(two_values(address, length)),
                    None => None,
                }
            },
            None => None,
        }
    }

    fn emit_elements(
        &mut self,
        elements: &Vec<ConstValue>,
        item: &ResolvedType,
        pointer_bytes: u32,
    ) -> (values: Option<Vec<Value>>)
        requires
            elements_fit(elements@, *item, pointer_bytes),
        ensures
            match elements_emitted(
                old(self)@,
                elements@,
                *item,
                elements@.len(),
                pointer_bytes,
            ) {
                Some(lowered) => {
                    &&& values is Some
                    &&& values->0@ == lowered.values
                    &&& final(self)@ == lowered.state
                },
                None => values is None,
            },
        decreases item, 1int,
    {
        let ghost before = self@;
        let mut values: Vec<Value> = Vec::new();
        let mut i: usize = 0;
        assert(values@ =~= Seq::empty());
        while i < elements.len()
            invariant
                i <= elements@.len(),
                elements_fit(elements@, *item, pointer_bytes),
                before == old(self)@,
                elements_emitted(before, elements@, *item, i as nat, pointer_bytes) == Some(
                    Lowered { state: self@, values: values@ },
                ),
            decreases elements.len() - i,
        {
            assert(const_fits(elements@[i as int], *item, pointer_bytes));
            match self.emit_const_value(&elements[i], item, pointer_bytes) {
                Some(mut more) => {
                    values.append(&mut more);
                },
                None => {
                    proof {
                        lemma_elements_stop(
                            before,
                            elements@,
                            item,
                            (i + 1) as nat,
                            elements@.len(),
                            pointer_bytes,
                        );
                    }
                    return None;
                },
            }
            i = i + 1;
        }
        Some(values)
    }

    fn emit_fields(
        &mut self,
        elements: &Vec<ConstValue>,
        fields: &Vec<ResolvedField>,
        pointer_bytes: u32,
    ) -> (values: Option<Vec<Value>>)
        requires
            fields_fit(elements@, fields@, pointer_bytes),
            fields_measurable(fields@, pointer_bytes),
        ensures
            match fields_emitted(
                old(self)@,
                elements@,
                fields@,
                paired(elements@.len(), fields@.len()),
                pointer_bytes,
            ) {
                Some(lowered) => {
                    &&& values is Some
                    &&& values->0@ == lowered.values
                    &&& final(self)@ == lowered.state
                },
                None => values is None,
            },
        decreases fields, 0int,
    {
        let ghost before = self@;
        let mut values: Vec<Value> = Vec::new();
        let mut i: usize = 0;
        assert(values@ =~= Seq::empty());
        while i < elements.len() && i < fields.len()
            invariant
                i <= elements@.len(),
                i <= fields@.len(),
                fields_fit(elements@, fields@, pointer_bytes),
                fields_measurable(fields@, pointer_bytes),
                before == old(self)@,
                fields_emitted(before, elements@, fields@, i as nat, pointer_bytes) == Some(
                    Lowered { state: self@, values: values@ },
                ),
            decreases elements.len() - i,
        {
            assert(const_fits(elements@[i as int], fields@[i as int].ty, pointer_bytes));
            assert(measurable(fields@[i as int].ty, pointer_bytes));
            match self.emit_const_value(&elements[i], &fields[i].ty, pointer_bytes) {
                Some(mut more) => {
                    values.append(&mut more);
                },
                None => {
                    proof {
                        lemma_fields_stop(
                            before,
                            elements@,
                            fields@,
                            (i + 1) as nat,
                            paired(elements@.len(), fields@.len()),
                            pointer_bytes,
                        );
                    }
                    return None;
                },
            }
            i = i + 1;
        }
        Some(values)
    }

    fn store_field(
        &mut self,
        value: &ConstValue,
        ty: &ResolvedType,
        slot: Value,
        at: u32,
        pointer_bytes: u32,
    ) -> (done: bool)
        requires
            measurable(*ty, pointer_bytes),
            const_fits(*value, *ty, pointer_bytes),
        ensures
            match field_stored(old(self)@, *value, *ty, slot, at as nat, pointer_bytes) {
                Some(after) => done && final(self)@ == after,
                None => !done,
            },
        decreases ty, 1int,
    {
        match self.emit_const_value(value, ty, pointer_bytes) {
            Some(values) => {
                self.store_scalars(slot, at, &values, type_alignment(ty), pointer_bytes)
            },
            None => false,
        }
    }

    fn store_fields(
        &mut self,
        elements: &Vec<ConstValue>,
        fields: &Vec<ResolvedField>,
        offsets: &Vec<u32>,
        slot: Value,
        pointer_bytes: u32,
    ) -> (done: bool)
        requires
            fields_fit(elements@, fields@, pointer_bytes),
            fields_measurable(fields@, pointer_bytes),
            offsets@.len() == fields@.len(),
        ensures
            match fields_stored(
                old(self)@,
                elements@,
                fields@,
                as_nats(offsets@),
                slot,
                paired(elements@.len(), fields@.len()),
                pointer_bytes,
            ) {
                Some(after) => done && final(self)@ == after,
                None => !done,
            },
        decreases fields, 0int,
    {
        let ghost before = self@;
        let ghost places = as_nats(offsets@);
        let mut i: usize = 0;
        while i < elements.len() && i < fields.len()
            invariant
                i <= elements@.len(),
                i <= fields@.len(),
                fields_fit(elements@, fields@, pointer_bytes),
                fields_measurable(fields@, pointer_bytes),
                offsets@.len() == fields@.len(),
                places == as_nats(offsets@),
                before == old(self)@,
                fields_stored(
                    before,
                    elements@,
                    fields@,
                    places,
                    slot,
                    i as nat,
                    pointer_bytes,
                ) == Some(self@),
            decreases elements.len() - i,
        {
            assert(const_fits(elements@[i as int], fields@[i as int].ty, pointer_bytes));
            assert(measurable(fields@[i as int].ty, pointer_bytes));
            assert(places[i as int] == offsets@[i as int] as nat);
            if !self.store_field(
                &elements[i],
                &fields[i].ty,
                slot,
                offsets[i],
                pointer_bytes,
            ) {
                proof {
                    lemma_storing_stops(
                        before,
                        elements@,
                        fields@,
                        places,
                        slot,
                        (i + 1) as nat,
                        paired(elements@.len(), fields@.len()),
                        pointer_bytes,
                    );
                }
                return false;
            }
            i = i + 1;
        }
        true
    }

    /// Stores the tag and the header of a variant.
    pub fn store_prefix(
        &mut self,
        tag: &NumberValue,
        header: &Vec<ConstValue>,
        cell: &ResolvedEnumType,
        slot: Value,
        pointer_bytes: u32,
    ) -> (done: bool)
        requires
            enum_measurable(*cell, pointer_bytes),
            leaves_spec(cell.tag_type, pointer_bytes).len() > 0,
            fields_fit(header@, cell.header@, pointer_bytes),
        ensures
            match prefix_stored(old(self)@, *tag, header@, *cell, slot, pointer_bytes) {
                Some(after) => done && final(self)@ == after,
                None => !done,
            },
        decreases cell, 0int,
    {
        assert(parts_measurable(
            ResolvedType::Enum { cell: Rc::new(*cell), variant: None },
            pointer_bytes,
        ));
        assert(measurable(cell.tag_type, pointer_bytes));
        assert(fields_measurable(cell.header@, pointer_bytes));
        let leaves: Vec<Leaf> = leaves_of(&cell.tag_type, pointer_bytes);
        let value: Value = match scalar_const(leaves[0], tag, pointer_bytes) {
            Some(value) => value,
            None => {
                return false;
            },
        };
        let values: Vec<Value> = one_value(value);
        let align: u32 = type_alignment(&cell.tag_type);
        if !self.store_scalars(slot, 0, &values, align, pointer_bytes) {
            return false;
        }
        let offsets: Vec<u32> = offsets_of_header(cell, pointer_bytes);
        self.store_fields(header, &cell.header, &offsets, slot, pointer_bytes)
    }
}

} // verus!
