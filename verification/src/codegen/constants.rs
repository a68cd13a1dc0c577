//! Compile-time values as data: the identity by which equal ones are shared,
//! their bytes, and the addresses among those bytes.

use crate::checked::NumberValue;
use crate::codegen::float_bits::{narrow, narrowed};
use crate::layout::{
    body_at, dynamic_at, header_at, named_header_offset, enum_measurable, field_byte_offset, field_parts, leaves_of, leaves_spec,
    measurable, named_body_offset, named_dynamic_offset, plan_offset, size_of, total_bytes, Leaf,
};
use crate::order::code_point;
use crate::resolved_type::{
    ConstValue, ResolvedEnumType, ResolvedField, ResolvedStructType, ResolvedType,
};
use std::rc::Rc;
use vstd::prelude::*;
use vstd::string::StrSliceExecFns;
use vstd::utf8::encode_utf8;

verus! {

/// What a piece of constant data is shared by.
#[derive(Debug)]
pub enum DataKey {
    /// The bytes of a string.
    Text(Vec<u8>),
    /// The identity of other data.
    Blob(Vec<u8>),
}

/// What a [`DataKey`] says.
pub enum KeyView {
    Text(Seq<u8>),
    Blob(Seq<u8>),
}

impl View for DataKey {
    type V = KeyView;

    open spec fn view(&self) -> KeyView {
        match *self {
            DataKey::Text(bytes) => KeyView::Text(bytes@),
            DataKey::Blob(bytes) => KeyView::Blob(bytes@),
        }
    }
}

/// An address to be filled in: where, and of which piece of the pool.
#[derive(Debug, Clone, Copy, PartialEq, Eq, Structural)]
pub struct Reloc {
    pub offset: u32,
    pub target: usize,
}

impl View for Reloc {
    type V = (u32, usize);

    open spec fn view(&self) -> (u32, usize) {
        (self.offset, self.target)
    }
}

/// What addresses to be filled in say, in order.
pub open spec fn reloc_views(relocs: Seq<Reloc>) -> Seq<(u32, usize)> {
    relocs.map_values(|reloc: Reloc| reloc@)
}

/// Bytes, and the addresses among them.
#[derive(Debug)]
pub struct ConstBlob {
    pub bytes: Vec<u8>,
    pub relocs: Vec<Reloc>,
}

/// What a [`ConstBlob`] says.
pub struct BlobView {
    pub bytes: Seq<u8>,
    pub relocs: Seq<(u32, usize)>,
}

impl View for ConstBlob {
    type V = BlobView;

    open spec fn view(&self) -> BlobView {
        BlobView { bytes: self.bytes@, relocs: reloc_views(self.relocs@) }
    }
}

/// A piece of constant data.
#[derive(Debug)]
pub struct DataObject {
    pub key: DataKey,
    pub blob: ConstBlob,
}

/// What a [`DataObject`] says.
pub struct ObjectView {
    pub key: KeyView,
    pub blob: BlobView,
}

impl View for DataObject {
    type V = ObjectView;

    open spec fn view(&self) -> ObjectView {
        ObjectView { key: self.key@, blob: self.blob@ }
    }
}

/// The constant data of a compilation. A piece comes after those it holds the
/// addresses of.
#[derive(Debug)]
pub struct ConstPool {
    pub objects: Vec<DataObject>,
}

impl View for ConstPool {
    type V = Seq<ObjectView>;

    open spec fn view(&self) -> Seq<ObjectView> {
        self.objects@.map_values(|object: DataObject| object@)
    }
}

/// Whether the pool holds data with this key.
pub open spec fn has_key(pool: Seq<ObjectView>, key: KeyView) -> bool {
    exists|i: int| 0 <= i < pool.len() && (#[trigger] pool[i]).key == key
}

/// The position of the last of the first `n` pieces that has this key.
pub open spec fn key_position(pool: Seq<ObjectView>, key: KeyView, n: nat) -> Option<usize>
    decreases n,
{
    if n == 0 {
        None
    } else if pool[n - 1].key == key {
        Some((n - 1) as usize)
    } else {
        key_position(pool, key, (n - 1) as nat)
    }
}

/// The position of the data with this key, the last that was added.
pub open spec fn place_of(pool: Seq<ObjectView>, key: KeyView) -> Option<usize> {
    key_position(pool, key, pool.len())
}

/// The pool with data added, unless it holds it already.
pub open spec fn pooled(pool: Seq<ObjectView>, object: ObjectView) -> Seq<ObjectView> {
    if has_key(pool, object.key) {
        pool
    } else {
        pool.push(object)
    }
}

/// The low `count` bytes of a number, least significant first.
pub open spec fn le_bytes(n: nat, count: nat) -> Seq<u8>
    decreases count,
{
    if count == 0 {
        Seq::empty()
    } else {
        seq![(n % 256) as u8] + le_bytes(n / 256, (count - 1) as nat)
    }
}

/// A signed 64-bit number as an unsigned one with the same bits.
pub open spec fn signed_bits(v: i64) -> nat {
    if v < 0 {
        (v + 0x1_0000_0000_0000_0000) as nat
    } else {
        v as nat
    }
}

/// The bits of a number in a scalar of `width` bytes; only its low bytes
/// matter.
pub open spec fn number_bits(number: NumberValue, width: nat) -> nat {
    match number {
        NumberValue::Signed(v) => signed_bits(v),
        NumberValue::Unsigned(v) => v as nat,
        NumberValue::Float(bits) => if width == 4 {
            narrowed(bits) as nat
        } else {
            bits as nat
        },
    }
}

/// The bits of a tag.
pub open spec fn tag_bits(tag: NumberValue) -> nat {
    number_bits(tag, 8)
}

/// The width of the scalar a number of this type is stored in.
pub open spec fn scalar_width(ty: ResolvedType, pointer_bytes: u32) -> nat {
    leaves_spec(ty, pointer_bytes)[0].size(pointer_bytes)
}

/// The smaller of two lengths.
pub open spec fn paired(a: nat, b: nat) -> nat {
    if a < b {
        a
    } else {
        b
    }
}

/// Whether a constant has the shape of its type, and everything it stores can
/// be laid out.
pub open spec fn const_fits(value: ConstValue, ty: ResolvedType, pointer_bytes: u32) -> bool
    decreases ty, 0int,
{
    match value {
        ConstValue::Number(_) => measurable(ty, pointer_bytes) && leaves_spec(
            ty,
            pointer_bytes,
        ).len() > 0,
        ConstValue::Bool(_) => true,
        ConstValue::Char(_) => true,
        ConstValue::Str(_) => true,
        ConstValue::Slice(elements) => match ty {
            ResolvedType::Slice { item, .. } => elements_fit(elements@, *item, pointer_bytes),
            _ => false,
        },
        ConstValue::Array(elements) => match ty {
            ResolvedType::SizedArray(item, _) => elements_fit(elements@, *item, pointer_bytes),
            _ => false,
        },
        ConstValue::Struct(fields) => match ty {
            ResolvedType::Struct(cell) => measurable(ty, pointer_bytes) && fields_fit(
                fields@,
                cell.fields@,
                pointer_bytes,
            ),
            _ => false,
        },
        ConstValue::Enum { variant_index, dynamic_fields, fields, .. } => match ty {
            ResolvedType::Enum { cell, .. } => {
                &&& measurable(ty, pointer_bytes)
                &&& leaves_spec(cell.tag_type, pointer_bytes).len() > 0
                &&& variant_index < cell.variants@.len()
                &&& fields_fit(
                    cell.variants@[variant_index as int].header_values@,
                    cell.header@,
                    pointer_bytes,
                )
                &&& fields_fit(dynamic_fields@, cell.dynamic_fields@, pointer_bytes)
                &&& fields_fit(
                    fields@,
                    cell.variants@[variant_index as int].fields@,
                    pointer_bytes,
                )
            },
            _ => false,
        },
        ConstValue::Union { field_index, value } => match ty {
            ResolvedType::Union(cell) => field_index < cell.fields@.len() && const_fits(
                *value,
                cell.fields@[field_index as int].ty,
                pointer_bytes,
            ),
            _ => false,
        },
        ConstValue::Ref(inner) => match ty {
            ResolvedType::Pointer { pointee, .. } => match *inner {
                ConstValue::Array(elements) => elements_fit(elements@, *pointee, pointer_bytes),
                _ => measurable(*pointee, pointer_bytes) && const_fits(
                    *inner,
                    *pointee,
                    pointer_bytes,
                ),
            },
            _ => false,
        },
    }
}

/// [`const_fits`] for the elements of a sequence, which a `u32` counts.
pub open spec fn elements_fit(
    values: Seq<ConstValue>,
    item: ResolvedType,
    pointer_bytes: u32,
) -> bool
    decreases item, 1int,
{
    &&& measurable(item, pointer_bytes)
    &&& values.len() <= u32::MAX
    &&& forall|i: int|
        0 <= i < values.len() ==> const_fits(#[trigger] values[i], item, pointer_bytes)
}

/// [`const_fits`] for the values of fields.
pub open spec fn fields_fit(
    values: Seq<ConstValue>,
    fields: Seq<ResolvedField>,
    pointer_bytes: u32,
) -> bool
    decreases fields, 0int,
{
    forall|i: int|
        0 <= i < values.len() && i < fields.len() ==> const_fits(
            #[trigger] values[i],
            fields[i].ty,
            pointer_bytes,
        )
}

/// The identity of a constant: constants of one type with the same identity
/// are the same data.
pub open spec fn identity(value: ConstValue, ty: ResolvedType, pointer_bytes: u32) -> Seq<u8>
    decreases ty, 0int, 0nat,
{
    match value {
        ConstValue::Number(number) => {
            let width = scalar_width(ty, pointer_bytes);
            le_bytes(number_bits(number, width), width)
        },
        ConstValue::Bool(flag) => seq![
            if flag {
                1u8
            } else {
                0u8
            },
        ],
        ConstValue::Char(c) => le_bytes(c as nat, 4),
        ConstValue::Str(text) => le_bytes(encode_utf8(text@).len(), 8) + encode_utf8(text@),
        ConstValue::Slice(elements) => match ty {
            ResolvedType::Slice { item, .. } => le_bytes(elements@.len(), 4) + element_identities(
                elements@,
                *item,
                elements@.len(),
                pointer_bytes,
            ),
            _ => Seq::empty(),
        },
        ConstValue::Array(elements) => match ty {
            ResolvedType::SizedArray(item, _) => element_identities(
                elements@,
                *item,
                elements@.len(),
                pointer_bytes,
            ),
            _ => Seq::empty(),
        },
        ConstValue::Struct(fields) => match ty {
            ResolvedType::Struct(cell) => field_identities(
                fields@,
                cell.fields@,
                paired(fields@.len(), cell.fields@.len()),
                pointer_bytes,
            ),
            _ => Seq::empty(),
        },
        ConstValue::Enum { variant_index, tag, dynamic_fields, fields, .. } => match ty {
            ResolvedType::Enum { cell, .. } => {
                let body = cell.variants@[variant_index as int].fields@;
                le_bytes(variant_index as nat, 4) + le_bytes(tag_bits(tag), 8) + field_identities(
                    dynamic_fields@,
                    cell.dynamic_fields@,
                    paired(dynamic_fields@.len(), cell.dynamic_fields@.len()),
                    pointer_bytes,
                ) + (if variant_index < cell.variants@.len() {
                    field_identities(
                        fields@,
                        body,
                        paired(fields@.len(), body.len()),
                        pointer_bytes,
                    )
                } else {
                    Seq::empty()
                })
            },
            _ => Seq::empty(),
        },
        ConstValue::Union { field_index, value } => match ty {
            ResolvedType::Union(cell) => if field_index < cell.fields@.len() {
                le_bytes(field_index as nat, 4) + identity(
                    *value,
                    cell.fields@[field_index as int].ty,
                    pointer_bytes,
                )
            } else {
                Seq::empty()
            },
            _ => Seq::empty(),
        },
        ConstValue::Ref(inner) => match ty {
            ResolvedType::Pointer { pointee, .. } => match *inner {
                ConstValue::Array(elements) => element_identities(
                    elements@,
                    *pointee,
                    elements@.len(),
                    pointer_bytes,
                ),
                _ => identity(*inner, *pointee, pointer_bytes),
            },
            _ => Seq::empty(),
        },
    }
}

/// The identities of the first `n` elements, one after the other.
pub open spec fn element_identities(
    values: Seq<ConstValue>,
    item: ResolvedType,
    n: nat,
    pointer_bytes: u32,
) -> Seq<u8>
    decreases item, 1int, n,
{
    if n == 0 {
        Seq::empty()
    } else {
        element_identities(values, item, (n - 1) as nat, pointer_bytes) + identity(
            values[n - 1],
            item,
            pointer_bytes,
        )
    }
}

/// The identities of the first `n` field values, one after the other.
pub open spec fn field_identities(
    values: Seq<ConstValue>,
    fields: Seq<ResolvedField>,
    n: nat,
    pointer_bytes: u32,
) -> Seq<u8>
    decreases fields, 0int, n,
{
    if n == 0 || n > fields.len() {
        Seq::empty()
    } else {
        field_identities(values, fields, (n - 1) as nat, pointer_bytes) + identity(
            values[n - 1],
            fields[n - 1].ty,
            pointer_bytes,
        )
    }
}

/// A position moved forward, as far as positions reach.
pub open spec fn moved(offset: u32, by: nat) -> Option<u32> {
    if offset + by <= u32::MAX {
        Some((offset + by) as u32)
    } else {
        None
    }
}

/// Bytes with others in their place from `offset` on.
pub open spec fn spliced(bytes: Seq<u8>, offset: int, data: Seq<u8>) -> Seq<u8> {
    Seq::new(
        bytes.len(),
        |i: int|
            if offset <= i < offset + data.len() {
                data[i - offset]
            } else {
                bytes[i]
            },
    )
}

/// The pool and a blob being written into.
pub struct Writing {
    pub pool: Seq<ObjectView>,
    pub blob: BlobView,
}

impl Writing {
    /// Bytes written at `offset`, where they have room.
    pub open spec fn put(self, offset: u32, data: Seq<u8>) -> Option<Writing> {
        if offset + data.len() <= self.blob.bytes.len() {
            Some(
                Writing {
                    blob: BlobView {
                        bytes: spliced(self.blob.bytes, offset as int, data),
                        ..self.blob
                    },
                    ..self
                },
            )
        } else {
            None
        }
    }

    /// An address to be filled in at `offset`, of the data with this key.
    pub open spec fn pointing(self, offset: u32, key: KeyView) -> Option<Writing> {
        match place_of(self.pool, key) {
            Some(position) => Some(
                Writing {
                    blob: BlobView {
                        relocs: self.blob.relocs.push((offset, position)),
                        ..self.blob
                    },
                    ..self
                },
            ),
            None => None,
        }
    }

    /// An address at `offset` and behind it a length.
    pub open spec fn fat_pointer(
        self,
        offset: u32,
        key: KeyView,
        length: nat,
        pointer_bytes: u32,
    ) -> Option<Writing> {
        match (moved(offset, pointer_bytes as nat), self.pointing(offset, key)) {
            (Some(at), Some(pointed)) => pointed.put(at, le_bytes(length, 4)),
            _ => None,
        }
    }

    pub open spec fn in_pool(self, pool: Seq<ObjectView>) -> Writing {
        Writing { pool, ..self }
    }
}

/// A blob of zeros.
pub open spec fn zeros(total: nat) -> BlobView {
    BlobView { bytes: Seq::new(total, |i: int| 0u8), relocs: Seq::empty() }
}

/// The data a string is.
pub open spec fn text_object(text: Seq<char>) -> ObjectView {
    ObjectView {
        key: KeyView::Text(encode_utf8(text)),
        blob: BlobView { bytes: encode_utf8(text), relocs: Seq::empty() },
    }
}

/// Positions as numbers.
pub open spec fn as_nats(offsets: Seq<u32>) -> Seq<nat> {
    offsets.map_values(|offset: u32| offset as nat)
}

/// Where the fields of a struct lie.
pub open spec fn struct_offsets(cell: ResolvedStructType, pointer_bytes: u32) -> Seq<nat> {
    Seq::new(
        cell.fields@.len(),
        |i: int|
            plan_offset(
                field_parts(cell.fields@, pointer_bytes),
                i,
                cell.layout.pack as nat,
                pointer_bytes,
            ),
    )
}

/// Where the header fields of an enum lie.
pub open spec fn header_offsets(cell: ResolvedEnumType, pointer_bytes: u32) -> Seq<nat> {
    Seq::new(cell.header@.len(), |i: int| header_at(cell, i, pointer_bytes))
}

/// Where the shared dynamic fields of an enum lie.
pub open spec fn dynamic_offsets(cell: ResolvedEnumType, pointer_bytes: u32) -> Seq<nat> {
    Seq::new(cell.dynamic_fields@.len(), |i: int| dynamic_at(cell, i, pointer_bytes))
}

/// Where the fields of a variant lie.
pub open spec fn body_offsets(cell: ResolvedEnumType, variant: int, pointer_bytes: u32) -> Seq<
    nat,
> {
    Seq::new(
        cell.variants@[variant].fields@.len(),
        |i: int| body_at(cell, variant, i, pointer_bytes),
    )
}

/// A blob once a constant has been written into it at `offset`; nothing where
/// it has no room there.
pub open spec fn written(
    value: ConstValue,
    ty: ResolvedType,
    offset: u32,
    w: Writing,
    pointer_bytes: u32,
) -> Option<Writing>
    decreases ty, 0int, 0nat,
{
    match value {
        ConstValue::Number(number) => {
            let width = scalar_width(ty, pointer_bytes);
            w.put(offset, le_bytes(number_bits(number, width), width))
        },
        ConstValue::Bool(flag) => w.put(
            offset,
            seq![
                if flag {
                    1u8
                } else {
                    0u8
                },
            ],
        ),
        ConstValue::Char(c) => w.put(offset, le_bytes(c as nat, 4)),
        ConstValue::Str(text) => w.in_pool(pooled(w.pool, text_object(text@))).fat_pointer(
            offset,
            KeyView::Text(encode_utf8(text@)),
            encode_utf8(text@).len(),
            pointer_bytes,
        ),
        ConstValue::Slice(elements) => match ty {
            ResolvedType::Slice { item, .. } => match elements_pooled(
                elements@,
                *item,
                w.pool,
                pointer_bytes,
            ) {
                Some(pool) => w.in_pool(pool).fat_pointer(
                    offset,
                    KeyView::Blob(
                        element_identities(elements@, *item, elements@.len(), pointer_bytes),
                    ),
                    elements@.len(),
                    pointer_bytes,
                ),
                None => None,
            },
            _ => None,
        },
        ConstValue::Array(elements) => match ty {
            ResolvedType::SizedArray(item, _) => elements_written(
                elements@,
                *item,
                offset,
                elements@.len(),
                w,
                pointer_bytes,
            ),
            _ => None,
        },
        ConstValue::Struct(fields) => match ty {
            ResolvedType::Struct(cell) => fields_written(
                fields@,
                cell.fields@,
                struct_offsets(*cell, pointer_bytes),
                offset,
                paired(fields@.len(), cell.fields@.len()),
                w,
                pointer_bytes,
            ),
            _ => None,
        },
        ConstValue::Enum { variant_index, tag, dynamic_fields, fields, .. } => match ty {
            ResolvedType::Enum { cell, .. } => if variant_index < cell.variants@.len() {
                let variant = cell.variants@[variant_index as int];
                let width = scalar_width(cell.tag_type, pointer_bytes);
                match w.put(offset, le_bytes(number_bits(tag, width), width)) {
                    Some(tagged) => match fields_written(
                        variant.header_values@,
                        cell.header@,
                        header_offsets(*cell, pointer_bytes),
                        offset,
                        paired(variant.header_values@.len(), cell.header@.len()),
                        tagged,
                        pointer_bytes,
                    ) {
                        Some(headed) => match fields_written(
                            dynamic_fields@,
                            cell.dynamic_fields@,
                            dynamic_offsets(*cell, pointer_bytes),
                            offset,
                            paired(dynamic_fields@.len(), cell.dynamic_fields@.len()),
                            headed,
                            pointer_bytes,
                        ) {
                            Some(shared) => fields_written(
                                fields@,
                                variant.fields@,
                                body_offsets(*cell, variant_index as int, pointer_bytes),
                                offset,
                                paired(fields@.len(), variant.fields@.len()),
                                shared,
                                pointer_bytes,
                            ),
                            None => None,
                        },
                        None => None,
                    },
                    None => None,
                }
            } else {
                None
            },
            _ => None,
        },
        ConstValue::Union { field_index, value } => match ty {
            ResolvedType::Union(cell) => if field_index < cell.fields@.len() {
                written(
                    *value,
                    cell.fields@[field_index as int].ty,
                    offset,
                    w,
                    pointer_bytes,
                )
            } else {
                None
            },
            _ => None,
        },
        ConstValue::Ref(inner) => match ty {
            ResolvedType::Pointer { pointee, .. } => match target_pooled(
                *inner,
                *pointee,
                w.pool,
                pointer_bytes,
            ) {
                Some(pool) => w.in_pool(pool).pointing(
                    offset,
                    KeyView::Blob(identity(value, ty, pointer_bytes)),
                ),
                None => None,
            },
            _ => None,
        },
    }
}

/// The first `n` elements of a sequence, written one behind the other.
pub open spec fn elements_written(
    values: Seq<ConstValue>,
    item: ResolvedType,
    offset: u32,
    n: nat,
    w: Writing,
    pointer_bytes: u32,
) -> Option<Writing>
    decreases item, 1int, n,
{
    if n == 0 {
        Some(w)
    } else {
        match elements_written(values, item, offset, (n - 1) as nat, w, pointer_bytes) {
            Some(before) => match moved(offset, ((n - 1) * size_of(item, pointer_bytes)) as nat) {
                Some(at) => written(values[n - 1], item, at, before, pointer_bytes),
                None => None,
            },
            None => None,
        }
    }
}

/// The first `n` field values, each written where its field lies.
pub open spec fn fields_written(
    values: Seq<ConstValue>,
    fields: Seq<ResolvedField>,
    offsets: Seq<nat>,
    offset: u32,
    n: nat,
    w: Writing,
    pointer_bytes: u32,
) -> Option<Writing>
    decreases fields, 0int, n,
{
    if n == 0 || n > fields.len() {
        Some(w)
    } else {
        match fields_written(
            values,
            fields,
            offsets,
            offset,
            (n - 1) as nat,
            w,
            pointer_bytes,
        ) {
            Some(before) => match moved(offset, offsets[n - 1]) {
                Some(at) => written(values[n - 1], fields[n - 1].ty, at, before, pointer_bytes),
                None => None,
            },
            None => None,
        }
    }
}

/// The pool with the elements of a sequence as one piece of data.
pub open spec fn elements_pooled(
    values: Seq<ConstValue>,
    item: ResolvedType,
    pool: Seq<ObjectView>,
    pointer_bytes: u32,
) -> Option<Seq<ObjectView>>
    decreases item, 2int, 0nat,
{
    let key = KeyView::Blob(element_identities(values, item, values.len(), pointer_bytes));
    let total = values.len() * size_of(item, pointer_bytes);
    if has_key(pool, key) {
        Some(pool)
    } else if total > u32::MAX {
        None
    } else {
        match elements_written(
            values,
            item,
            0,
            values.len(),
            Writing { pool, blob: zeros(total as nat) },
            pointer_bytes,
        ) {
            Some(w) => Some(w.pool.push(ObjectView { key, blob: w.blob })),
            None => None,
        }
    }
}

/// The pool with a constant as one piece of data.
pub open spec fn value_pooled(
    value: ConstValue,
    ty: ResolvedType,
    pool: Seq<ObjectView>,
    pointer_bytes: u32,
) -> Option<Seq<ObjectView>>
    decreases ty, 1int, 0nat,
{
    let key = KeyView::Blob(identity(value, ty, pointer_bytes));
    if has_key(pool, key) {
        Some(pool)
    } else {
        match written(
            value,
            ty,
            0,
            Writing { pool, blob: zeros(size_of(ty, pointer_bytes)) },
            pointer_bytes,
        ) {
            Some(w) => Some(w.pool.push(ObjectView { key, blob: w.blob })),
            None => None,
        }
    }
}

/// The pool with what a reference to a `pointee` refers to: a whole sequence
/// where it is one, else one value.
pub open spec fn target_pooled(
    inner: ConstValue,
    pointee: ResolvedType,
    pool: Seq<ObjectView>,
    pointer_bytes: u32,
) -> Option<Seq<ObjectView>>
    decreases pointee, 3int, 0nat,
{
    match inner {
        ConstValue::Array(elements) => elements_pooled(elements@, pointee, pool, pointer_bytes),
        _ => value_pooled(inner, pointee, pool, pointer_bytes),
    }
}

/// The identity of what a reference refers to.
pub open spec fn target_identity(
    inner: ConstValue,
    pointee: ResolvedType,
    pointer_bytes: u32,
) -> Seq<u8> {
    match inner {
        ConstValue::Array(elements) => element_identities(
            elements@,
            pointee,
            elements@.len(),
            pointer_bytes,
        ),
        _ => identity(inner, pointee, pointer_bytes),
    }
}

fn push_le(out: &mut Vec<u8>, n: u64, count: u32)
    ensures
        final(out)@ == old(out)@ + le_bytes(n as nat, count as nat),
{
    let ghost before = out@;
    let mut rest: u64 = n;
    let mut left: u32 = count;
    assert(before + le_bytes(n as nat, count as nat) =~= out@ + le_bytes(
        rest as nat,
        left as nat,
    ));
    while left > 0
        invariant
            before + le_bytes(n as nat, count as nat) =~= out@ + le_bytes(
                rest as nat,
                left as nat,
            ),
        decreases left,
    {
        out.push((rest % 256) as u8);
        rest = rest / 256;
        left = left - 1;
    }
}

fn le_vec(n: u64, count: u32) -> (bytes: Vec<u8>)
    ensures
        bytes@ == le_bytes(n as nat, count as nat),
{
    let mut bytes: Vec<u8> = Vec::new();
    push_le(&mut bytes, n, count);
    assert(bytes@ =~= le_bytes(n as nat, count as nat));
    bytes
}

proof fn lemma_le_length(n: nat, count: nat)
    ensures
        le_bytes(n, count).len() == count,
    decreases count,
{
    if count > 0 {
        lemma_le_length(n / 256, (count - 1) as nat);
    }
}

pub fn bits_of(number: &NumberValue, width: u32) -> (bits: u64)
    ensures
        bits == number_bits(*number, width as nat),
{
    match number {
        NumberValue::Signed(v) => if *v < 0 {
            (*v as i128 + 0x1_0000_0000_0000_0000i128) as u64
        } else {
            *v as u64
        },
        NumberValue::Unsigned(v) => *v,
        NumberValue::Float(bits) => if width == 4 {
            narrow(*bits) as u64
        } else {
            *bits
        },
    }
}

fn width_of(ty: &ResolvedType, pointer_bytes: u32) -> (width: u32)
    requires
        measurable(*ty, pointer_bytes),
        leaves_spec(*ty, pointer_bytes).len() > 0,
    ensures
        width == scalar_width(*ty, pointer_bytes),
{
    let leaves: Vec<Leaf> = leaves_of(ty, pointer_bytes);
    leaves[0].bytes(pointer_bytes)
}

fn same_bytes(a: &Vec<u8>, b: &Vec<u8>) -> (r: bool)
    ensures
        r == (a@ == b@),
{
    if a.len() != b.len() {
        return false;
    }
    let mut i: usize = 0;
    while i < a.len()
        invariant
            i <= a@.len() == b@.len(),
            forall|k: int| 0 <= k < i ==> a@[k] == b@[k],
        decreases a.len() - i,
    {
        if a[i] != b[i] {
            return false;
        }
        i = i + 1;
    }
    assert(a@ =~= b@);
    true
}

fn same_key(a: &DataKey, b: &DataKey) -> (r: bool)
    ensures
        r == (a@ == b@),
{
    match (a, b) {
        (DataKey::Text(x), DataKey::Text(y)) => same_bytes(x, y),
        (DataKey::Blob(x), DataKey::Blob(y)) => same_bytes(x, y),
        _ => false,
    }
}

pub fn text_bytes(text: &String) -> (bytes: Vec<u8>)
    ensures
        bytes@ == encode_utf8(text@),
{
    text.as_str().as_bytes_vec()
}

impl ConstPool {
    pub fn new() -> (pool: Self)
        ensures
            pool@ == Seq::<ObjectView>::empty(),
    {
        let pool = ConstPool { objects: Vec::new() };
        assert(pool@ =~= Seq::empty());
        pool
    }

    /// Whether the pool holds data with this key.
    pub fn contains(&self, key: &DataKey) -> (r: bool)
        ensures
            r == has_key(self@, key@),
    {
        let mut i: usize = 0;
        while i < self.objects.len()
            invariant
                i <= self.objects@.len(),
                forall|k: int| 0 <= k < i ==> (#[trigger] self@[k]).key != key@,
            decreases self.objects.len() - i,
        {
            if same_key(&self.objects[i].key, key) {
                assert(self@[i as int].key == key@);
                return true;
            }
            i = i + 1;
        }
        false
    }

    /// The position of the data with this key.
    pub fn position(&self, key: &DataKey) -> (at: Option<usize>)
        ensures
            at == place_of(self@, key@),
    {
        let mut i: usize = self.objects.len();
        while i > 0
            invariant
                i <= self.objects@.len(),
                place_of(self@, key@) == key_position(self@, key@, i as nat),
            decreases i,
        {
            i = i - 1;
            assert(self@[i as int] == self.objects@[i as int]@);
            if same_key(&self.objects[i].key, key) {
                return Some(i);
            }
        }
        None
    }

    fn push(&mut self, object: DataObject)
        ensures
            final(self)@ == old(self)@.push(object@),
    {
        self.objects.push(object);
        assert(self@ =~= old(self)@.push(object@));
    }

    /// Adds the data of a string.
    pub fn add_text(&mut self, text: &String)
        ensures
            final(self)@ == pooled(old(self)@, text_object(text@)),
    {
        let key = DataKey::Text(text_bytes(text));
        if !self.contains(&key) {
            let blob = ConstBlob { bytes: text_bytes(text), relocs: Vec::new() };
            assert(blob@.relocs =~= Seq::empty());
            self.push(DataObject { key, blob });
        }
    }
}

fn zero_blob(total: u32) -> (blob: ConstBlob)
    ensures
        blob@ == zeros(total as nat),
{
    let mut bytes: Vec<u8> = Vec::new();
    let mut i: u32 = 0;
    while i < total
        invariant
            i <= total,
            bytes@ =~= zeros(i as nat).bytes,
        decreases total - i,
    {
        bytes.push(0);
        i = i + 1;
    }
    let blob = ConstBlob { bytes, relocs: Vec::new() };
    assert(blob@.relocs =~= Seq::empty());
    assert(blob@.bytes =~= zeros(total as nat).bytes);
    blob
}

impl ConstBlob {
    fn put(&mut self, offset: u32, data: &Vec<u8>) -> (done: bool)
        ensures
            final(self)@.relocs == old(self)@.relocs,
            done == (offset + data@.len() <= old(self).bytes@.len()),
            done ==> final(self).bytes@ == spliced(old(self).bytes@, offset as int, data@),
    {
        let start: usize = offset as usize;
        if start > self.bytes.len() || data.len() > self.bytes.len() - start {
            return false;
        }
        let ghost before = self.bytes@;
        let mut i: usize = 0;
        while i < data.len()
            invariant
                i <= data@.len(),
                start == offset,
                start + data.len() <= self.bytes.len(),
                before.len() == self.bytes@.len(),
                self.relocs == old(self).relocs,
                forall|k: int|
                    0 <= k < before.len() ==> #[trigger] self.bytes@[k] == if start <= k < start
                        + i {
                        data@[k - start]
                    } else {
                        before[k]
                    },
            decreases data.len() - i,
        {
            self.bytes.set(start + i, data[i]);
            i = i + 1;
        }
        assert(self.bytes@ =~= spliced(before, offset as int, data@));
        true
    }

    fn point(&mut self, offset: u32, target: usize)
        ensures
            final(self)@ == (BlobView {
                relocs: old(self)@.relocs.push((offset, target)),
                ..old(self)@
            }),
    {
        let ghost before = self.relocs@;
        let reloc = Reloc { offset, target };
        self.relocs.push(reloc);
        assert(reloc_views(self.relocs@) =~= reloc_views(before).push(reloc@));
    }
}

pub fn forward(offset: u32, by: u32) -> (at: Option<u32>)
    ensures
        at == moved(offset, by as nat),
{
    if by <= u32::MAX - offset {
        Some(offset + by)
    } else {
        None
    }
}

fn put_fat_pointer(
    pool: &ConstPool,
    blob: &mut ConstBlob,
    offset: u32,
    target: &DataKey,
    length: u64,
    pointer_bytes: u32,
) -> (done: bool)
    ensures
        ({
            let w = Writing { pool: pool@, blob: old(blob)@ };
            match w.fat_pointer(offset, target@, length as nat, pointer_bytes) {
                Some(after) => done && final(blob)@ == after.blob,
                None => !done,
            }
        }),
{
    match (forward(offset, pointer_bytes), pool.position(target)) {
        (Some(at), Some(position)) => {
            blob.point(offset, position);
            let data: Vec<u8> = le_vec(length, 4);
            blob.put(at, &data)
        },
        _ => false,
    }
}

/// Appends the identity of a constant.
pub fn hash_const_element(
    out: &mut Vec<u8>,
    value: &ConstValue,
    ty: &ResolvedType,
    pointer_bytes: u32,
)
    requires
        const_fits(*value, *ty, pointer_bytes),
    ensures
        final(out)@ == old(out)@ + identity(*value, *ty, pointer_bytes),
    decreases ty, 0int,
{
    match value {
        ConstValue::Number(number) => {
            let width: u32 = width_of(ty, pointer_bytes);
            push_le(out, bits_of(number, width), width);
        },
        ConstValue::Bool(flag) => {
            if *flag {
                out.push(1);
            } else {
                out.push(0);
            }
            assert(out@ =~= old(out)@ + identity(*value, *ty, pointer_bytes));
        },
        ConstValue::Char(c) => {
            push_le(out, code_point(*c) as u64, 4);
        },
        ConstValue::Str(text) => {
            let mut bytes: Vec<u8> = text_bytes(text);
            push_le(out, bytes.len() as u64, 8);
            out.append(&mut bytes);
            assert(out@ =~= old(out)@ + identity(*value, *ty, pointer_bytes));
        },
        ConstValue::Slice(elements) => if let ResolvedType::Slice { item, .. } = ty {
            push_le(out, elements.len() as u64, 4);
            hash_elements(out, elements, item, pointer_bytes);
            assert(out@ =~= old(out)@ + identity(*value, *ty, pointer_bytes));
        },
        ConstValue::Array(elements) => if let ResolvedType::SizedArray(item, _) = ty {
            hash_elements(out, elements, item, pointer_bytes);
        },
        ConstValue::Struct(fields) => if let ResolvedType::Struct(cell) = ty {
            hash_fields(out, fields, &cell.fields, pointer_bytes);
        },
        ConstValue::Enum { variant_index, tag, dynamic_fields, fields, .. } => {
            if let ResolvedType::Enum { cell, .. } = ty {
                push_le(out, *variant_index as u64, 4);
                push_le(out, bits_of(tag, 8), 8);
                hash_fields(out, dynamic_fields, &cell.dynamic_fields, pointer_bytes);
                hash_fields(out, fields, &cell.variants[*variant_index].fields, pointer_bytes);
                assert(out@ =~= old(out)@ + identity(*value, *ty, pointer_bytes));
            }
        },
        ConstValue::Union { field_index, value: inner } => if let ResolvedType::Union(cell) = ty {
            push_le(out, *field_index as u64, 4);
            hash_const_element(out, inner, &cell.fields[*field_index].ty, pointer_bytes);
            assert(out@ =~= old(out)@ + identity(*value, *ty, pointer_bytes));
        },
        ConstValue::Ref(inner) => if let ResolvedType::Pointer { pointee, .. } = ty {
            match &**inner {
                ConstValue::Array(elements) => hash_elements(
                    out,
                    elements,
                    pointee,
                    pointer_bytes,
                ),
                _ => hash_const_element(out, inner, pointee, pointer_bytes),
            }
        },
    }
}

fn hash_elements(
    out: &mut Vec<u8>,
    values: &Vec<ConstValue>,
    item: &ResolvedType,
    pointer_bytes: u32,
)
    requires
        elements_fit(values@, *item, pointer_bytes),
    ensures
        final(out)@ == old(out)@ + element_identities(
            values@,
            *item,
            values@.len(),
            pointer_bytes,
        ),
    decreases item, 1int,
{
    let ghost before = out@;
    let mut i: usize = 0;
    assert(before + element_identities(values@, *item, 0, pointer_bytes) =~= before);
    while i < values.len()
        invariant
            i <= values@.len(),
            elements_fit(values@, *item, pointer_bytes),
            out@ =~= before + element_identities(values@, *item, i as nat, pointer_bytes),
        decreases values.len() - i,
    {
        assert(const_fits(values@[i as int], *item, pointer_bytes));
        hash_const_element(out, &values[i], item, pointer_bytes);
        i = i + 1;
    }
}

fn hash_fields(
    out: &mut Vec<u8>,
    values: &Vec<ConstValue>,
    fields: &Vec<ResolvedField>,
    pointer_bytes: u32,
)
    requires
        fields_fit(values@, fields@, pointer_bytes),
    ensures
        final(out)@ == old(out)@ + field_identities(
            values@,
            fields@,
            paired(values@.len(), fields@.len()),
            pointer_bytes,
        ),
    decreases fields, 0int,
{
    let ghost before = out@;
    let mut i: usize = 0;
    assert(before + field_identities(values@, fields@, 0, pointer_bytes) =~= before);
    while i < values.len() && i < fields.len()
        invariant
            i <= values@.len(),
            i <= fields@.len(),
            fields_fit(values@, fields@, pointer_bytes),
            out@ =~= before + field_identities(values@, fields@, i as nat, pointer_bytes),
        decreases values.len() - i,
    {
        assert(const_fits(values@[i as int], fields@[i as int].ty, pointer_bytes));
        hash_const_element(out, &values[i], &fields[i].ty, pointer_bytes);
        i = i + 1;
    }
}

pub fn offsets_of_struct(cell: &ResolvedStructType, pointer_bytes: u32) -> (offsets: Vec<u32>)
    requires
        measurable(ResolvedType::Struct(Rc::new(*cell)), pointer_bytes),
    ensures
        as_nats(offsets@) == struct_offsets(*cell, pointer_bytes),
        offsets@.len() == cell.fields@.len(),
{
    let mut offsets: Vec<u32> = Vec::new();
    let mut i: usize = 0;
    while i < cell.fields.len()
        invariant
            i <= cell.fields@.len(),
            measurable(ResolvedType::Struct(Rc::new(*cell)), pointer_bytes),
            as_nats(offsets@) =~= struct_offsets(*cell, pointer_bytes).take(i as int),
        decreases cell.fields.len() - i,
    {
        let ghost before = offsets@;
        offsets.push(field_byte_offset(cell, i, pointer_bytes));
        assert(as_nats(offsets@) =~= as_nats(before).push(offsets@.last() as nat));
        i = i + 1;
    }
    assert(as_nats(offsets@) =~= struct_offsets(*cell, pointer_bytes));
    assert(as_nats(offsets@).len() == offsets@.len());
    offsets
}

pub fn offsets_of_header(cell: &ResolvedEnumType, pointer_bytes: u32) -> (offsets: Vec<u32>)
    requires
        enum_measurable(*cell, pointer_bytes),
    ensures
        as_nats(offsets@) == header_offsets(*cell, pointer_bytes),
        offsets@.len() == cell.header@.len(),
{
    let mut offsets: Vec<u32> = Vec::new();
    let mut i: usize = 0;
    while i < cell.header.len()
        invariant
            i <= cell.header@.len(),
            enum_measurable(*cell, pointer_bytes),
            as_nats(offsets@) =~= header_offsets(*cell, pointer_bytes).take(i as int),
        decreases cell.header.len() - i,
    {
        let ghost before = offsets@;
        offsets.push(named_header_offset(cell, i, pointer_bytes));
        assert(as_nats(offsets@) =~= as_nats(before).push(offsets@.last() as nat));
        i = i + 1;
    }
    assert(as_nats(offsets@) =~= header_offsets(*cell, pointer_bytes));
    assert(as_nats(offsets@).len() == offsets@.len());
    offsets
}

pub fn offsets_of_dynamic(cell: &ResolvedEnumType, pointer_bytes: u32) -> (offsets: Vec<u32>)
    requires
        enum_measurable(*cell, pointer_bytes),
    ensures
        as_nats(offsets@) == dynamic_offsets(*cell, pointer_bytes),
        offsets@.len() == cell.dynamic_fields@.len(),
{
    let mut offsets: Vec<u32> = Vec::new();
    let mut i: usize = 0;
    while i < cell.dynamic_fields.len()
        invariant
            i <= cell.dynamic_fields@.len(),
            enum_measurable(*cell, pointer_bytes),
            as_nats(offsets@) =~= dynamic_offsets(*cell, pointer_bytes).take(i as int),
        decreases cell.dynamic_fields.len() - i,
    {
        let ghost before = offsets@;
        offsets.push(named_dynamic_offset(cell, i, pointer_bytes));
        assert(as_nats(offsets@) =~= as_nats(before).push(offsets@.last() as nat));
        i = i + 1;
    }
    assert(as_nats(offsets@) =~= dynamic_offsets(*cell, pointer_bytes));
    assert(as_nats(offsets@).len() == offsets@.len());
    offsets
}

pub fn offsets_of_body(cell: &ResolvedEnumType, variant: usize, pointer_bytes: u32) -> (offsets: Vec<
    u32,
>)
    requires
        enum_measurable(*cell, pointer_bytes),
        variant < cell.variants@.len(),
    ensures
        as_nats(offsets@) == body_offsets(*cell, variant as int, pointer_bytes),
        offsets@.len() == cell.variants@[variant as int].fields@.len(),
{
    let mut offsets: Vec<u32> = Vec::new();
    let mut i: usize = 0;
    while i < cell.variants[variant].fields.len()
        invariant
            variant < cell.variants@.len(),
            i <= cell.variants@[variant as int].fields@.len(),
            enum_measurable(*cell, pointer_bytes),
            as_nats(offsets@) =~= body_offsets(*cell, variant as int, pointer_bytes).take(
                i as int,
            ),
        decreases cell.variants@[variant as int].fields@.len() - i,
    {
        let ghost before = offsets@;
        offsets.push(named_body_offset(cell, variant, i, pointer_bytes));
        assert(as_nats(offsets@) =~= as_nats(before).push(offsets@.last() as nat));
        i = i + 1;
    }
    assert(as_nats(offsets@) =~= body_offsets(*cell, variant as int, pointer_bytes));
    assert(as_nats(offsets@).len() == offsets@.len());
    offsets
}

proof fn lemma_elements_fail(
    values: Seq<ConstValue>,
    item: &ResolvedType,
    offset: u32,
    n: nat,
    m: nat,
    w: Writing,
    pointer_bytes: u32,
)
    requires
        n <= m,
        elements_written(values, *item, offset, n, w, pointer_bytes) is None,
    ensures
        elements_written(values, *item, offset, m, w, pointer_bytes) is None,
    decreases m,
{
    if n < m {
        lemma_elements_fail(values, item, offset, n, (m - 1) as nat, w, pointer_bytes);
    }
}

proof fn lemma_fields_fail(
    values: Seq<ConstValue>,
    fields: Seq<ResolvedField>,
    offsets: Seq<nat>,
    offset: u32,
    n: nat,
    m: nat,
    w: Writing,
    pointer_bytes: u32,
)
    requires
        n <= m <= fields.len(),
        fields_written(values, fields, offsets, offset, n, w, pointer_bytes) is None,
    ensures
        fields_written(values, fields, offsets, offset, m, w, pointer_bytes) is None,
    decreases m,
{
    if n < m {
        lemma_fields_fail(
            values,
            fields,
            offsets,
            offset,
            n,
            (m - 1) as nat,
            w,
            pointer_bytes,
        );
    }
}

/// Writes a constant into a blob at `offset`, adding the data it refers to to
/// the pool; false where it has no room there.
pub fn write_const_element(
    pool: &mut ConstPool,
    blob: &mut ConstBlob,
    offset: u32,
    value: &ConstValue,
    ty: &ResolvedType,
    pointer_bytes: u32,
) -> (done: bool)
    requires
        const_fits(*value, *ty, pointer_bytes),
    ensures
        match written(
            *value,
            *ty,
            offset,
            Writing { pool: old(pool)@, blob: old(blob)@ },
            pointer_bytes,
        ) {
            Some(w) => done && final(pool)@ == w.pool && final(blob)@ == w.blob,
            None => !done,
        },
    decreases ty, 0int,
{
    let ghost start = Writing { pool: pool@, blob: blob@ };
    match value {
        ConstValue::Number(number) => {
            let width: u32 = width_of(ty, pointer_bytes);
            blob.put(offset, &le_vec(bits_of(number, width), width))
        },
        ConstValue::Bool(flag) => {
            let mut data: Vec<u8> = Vec::new();
            if *flag {
                data.push(1);
            } else {
                data.push(0);
            }
            assert(data@ =~= seq![
                if *flag {
                    1u8
                } else {
                    0u8
                },
            ]);
            blob.put(offset, &data)
        },
        ConstValue::Char(c) => blob.put(offset, &le_vec(code_point(*c) as u64, 4)),
        ConstValue::Str(text) => {
            pool.add_text(text);
            let bytes: Vec<u8> = text_bytes(text);
            let length: u64 = bytes.len() as u64;
            put_fat_pointer(pool, blob, offset, &DataKey::Text(bytes), length, pointer_bytes)
        },
        ConstValue::Slice(elements) => match ty {
            ResolvedType::Slice { item, .. } => {
                match build_const_slice_data(pool, elements, item, pointer_bytes) {
                    Some(key) => put_fat_pointer(
                        pool,
                        blob,
                        offset,
                        &DataKey::Blob(key),
                        elements.len() as u64,
                        pointer_bytes,
                    ),
                    None => false,
                }
            },
            _ => false,
        },
        ConstValue::Array(elements) => match ty {
            ResolvedType::SizedArray(item, _) => write_elements(
                pool,
                blob,
                offset,
                elements,
                item,
                pointer_bytes,
            ),
            _ => false,
        },
        ConstValue::Struct(fields) => match ty {
            ResolvedType::Struct(cell) => {
                let offsets: Vec<u32> = offsets_of_struct(cell, pointer_bytes);
                write_fields(pool, blob, offset, fields, &cell.fields, &offsets, pointer_bytes)
            },
            _ => false,
        },
        ConstValue::Enum { variant_index, tag, dynamic_fields, fields, .. } => match ty {
            ResolvedType::Enum { cell, .. } => {
                assert(enum_measurable(**cell, pointer_bytes));
                assert(measurable(cell.tag_type, pointer_bytes));
                let width: u32 = width_of(&cell.tag_type, pointer_bytes);
                if !blob.put(offset, &le_vec(bits_of(tag, width), width)) {
                    return false;
                }
                let variant = &cell.variants[*variant_index];
                let leading: Vec<u32> = offsets_of_header(cell, pointer_bytes);
                if !write_fields(
                    pool,
                    blob,
                    offset,
                    &variant.header_values,
                    &cell.header,
                    &leading,
                    pointer_bytes,
                ) {
                    return false;
                }
                let shared: Vec<u32> = offsets_of_dynamic(cell, pointer_bytes);
                if !write_fields(
                    pool,
                    blob,
                    offset,
                    dynamic_fields,
                    &cell.dynamic_fields,
                    &shared,
                    pointer_bytes,
                ) {
                    return false;
                }
                let own: Vec<u32> = offsets_of_body(cell, *variant_index, pointer_bytes);
                write_fields(pool, blob, offset, fields, &variant.fields, &own, pointer_bytes)
            },
            _ => false,
        },
        ConstValue::Union { field_index, value: inner } => match ty {
            ResolvedType::Union(cell) => write_const_element(
                pool,
                blob,
                offset,
                inner,
                &cell.fields[*field_index].ty,
                pointer_bytes,
            ),
            _ => false,
        },
        ConstValue::Ref(inner) => match ty {
            ResolvedType::Pointer { pointee, .. } => {
                match build_target_data(pool, inner, pointee, pointer_bytes) {
                    Some(key) => match pool.position(&DataKey::Blob(key)) {
                        Some(position) => {
                            blob.point(offset, position);
                            true
                        },
                        None => false,
                    },
                    None => false,
                }
            },
            _ => false,
        },
    }
}

fn write_elements(
    pool: &mut ConstPool,
    blob: &mut ConstBlob,
    offset: u32,
    values: &Vec<ConstValue>,
    item: &ResolvedType,
    pointer_bytes: u32,
) -> (done: bool)
    requires
        elements_fit(values@, *item, pointer_bytes),
    ensures
        match elements_written(
            values@,
            *item,
            offset,
            values@.len(),
            Writing { pool: old(pool)@, blob: old(blob)@ },
            pointer_bytes,
        ) {
            Some(w) => done && final(pool)@ == w.pool && final(blob)@ == w.blob,
            None => !done,
        },
    decreases item, 1int,
{
    let ghost start = Writing { pool: pool@, blob: blob@ };
    let stride: u32 = total_bytes(item, pointer_bytes);
    let mut i: usize = 0;
    while i < values.len()
        invariant
            i <= values@.len(),
            elements_fit(values@, *item, pointer_bytes),
            stride == size_of(*item, pointer_bytes),
            start == (Writing { pool: old(pool)@, blob: old(blob)@ }),
            elements_written(values@, *item, offset, i as nat, start, pointer_bytes) == Some(
                Writing { pool: pool@, blob: blob@ },
            ),
        decreases values.len() - i,
    {
        assert(const_fits(values@[i as int], *item, pointer_bytes));
        assert(i as int * stride as int <= 0xffff_ffff * 0xffff_ffff) by (nonlinear_arith)
            requires
                0 <= i <= 0xffff_ffff,
                0 <= stride <= 0xffff_ffff,
        ;
        let along: u64 = i as u64 * stride as u64;
        let done: bool = if along > 0xffff_ffff {
            false
        } else {
            match forward(offset, along as u32) {
                Some(at) => write_const_element(pool, blob, at, &values[i], item, pointer_bytes),
                None => false,
            }
        };
        if !done {
            proof {
                lemma_elements_fail(
                    values@,
                    item,
                    offset,
                    (i + 1) as nat,
                    values@.len(),
                    start,
                    pointer_bytes,
                );
            }
            return false;
        }
        i = i + 1;
    }
    true
}

fn write_fields(
    pool: &mut ConstPool,
    blob: &mut ConstBlob,
    offset: u32,
    values: &Vec<ConstValue>,
    fields: &Vec<ResolvedField>,
    offsets: &Vec<u32>,
    pointer_bytes: u32,
) -> (done: bool)
    requires
        fields_fit(values@, fields@, pointer_bytes),
        offsets@.len() == fields@.len(),
    ensures
        match fields_written(
            values@,
            fields@,
            as_nats(offsets@),
            offset,
            paired(values@.len(), fields@.len()),
            Writing { pool: old(pool)@, blob: old(blob)@ },
            pointer_bytes,
        ) {
            Some(w) => done && final(pool)@ == w.pool && final(blob)@ == w.blob,
            None => !done,
        },
    decreases fields, 0int,
{
    let ghost start = Writing { pool: pool@, blob: blob@ };
    let ghost places = as_nats(offsets@);
    let mut i: usize = 0;
    while i < values.len() && i < fields.len()
        invariant
            i <= values@.len(),
            i <= fields@.len(),
            fields_fit(values@, fields@, pointer_bytes),
            offsets@.len() == fields@.len(),
            places == as_nats(offsets@),
            start == (Writing { pool: old(pool)@, blob: old(blob)@ }),
            fields_written(
                values@,
                fields@,
                places,
                offset,
                i as nat,
                start,
                pointer_bytes,
            ) == Some(Writing { pool: pool@, blob: blob@ }),
        decreases values.len() - i,
    {
        assert(const_fits(values@[i as int], fields@[i as int].ty, pointer_bytes));
        assert(places[i as int] == offsets@[i as int] as nat);
        let done: bool = match forward(offset, offsets[i]) {
            Some(at) => write_const_element(
                pool,
                blob,
                at,
                &values[i],
                &fields[i].ty,
                pointer_bytes,
            ),
            None => false,
        };
        if !done {
            proof {
                lemma_fields_fail(
                    values@,
                    fields@,
                    places,
                    offset,
                    (i + 1) as nat,
                    paired(values@.len(), fields@.len()),
                    start,
                    pointer_bytes,
                );
            }
            return false;
        }
        i = i + 1;
    }
    true
}

/// Adds the elements of a sequence to the pool as one piece of data, and
/// returns its key.
pub fn build_const_slice_data(
    pool: &mut ConstPool,
    values: &Vec<ConstValue>,
    item: &ResolvedType,
    pointer_bytes: u32,
) -> (key: Option<Vec<u8>>)
    requires
        elements_fit(values@, *item, pointer_bytes),
    ensures
        match elements_pooled(values@, *item, old(pool)@, pointer_bytes) {
            Some(after) => {
                &&& key is Some
                &&& key->0@ == element_identities(values@, *item, values@.len(), pointer_bytes)
                &&& final(pool)@ == after
            },
            None => key is None,
        },
    decreases item, 2int,
{
    let mut identity_bytes: Vec<u8> = Vec::new();
    hash_elements(&mut identity_bytes, values, item, pointer_bytes);
    let ghost found = element_identities(values@, *item, values@.len(), pointer_bytes);
    assert(identity_bytes@ =~= found);
    let key = DataKey::Blob(identity_bytes);
    if pool.contains(&key) {
        if let DataKey::Blob(bytes) = key {
            return Some(bytes);
        }
        return None;
    }
    let stride: u32 = total_bytes(item, pointer_bytes);
    assert(values@.len() * stride as int <= 0xffff_ffff * 0xffff_ffff) by (nonlinear_arith)
        requires
            0 <= values@.len() <= 0xffff_ffff,
            0 <= stride <= 0xffff_ffff,
    ;
    let total: u64 = values.len() as u64 * stride as u64;
    if total > 0xffff_ffff {
        return None;
    }
    let mut blob: ConstBlob = zero_blob(total as u32);
    if !write_elements(pool, &mut blob, 0, values, item, pointer_bytes) {
        return None;
    }
    let copy: Vec<u8> = copy_bytes(&key);
    pool.push(DataObject { key, blob });
    Some(copy)
}

fn copy_bytes(key: &DataKey) -> (bytes: Vec<u8>)
    ensures
        match key@ {
            KeyView::Text(found) => bytes@ == found,
            KeyView::Blob(found) => bytes@ == found,
        },
{
    let source: &Vec<u8> = match key {
        DataKey::Text(found) => found,
        DataKey::Blob(found) => found,
    };
    let mut bytes: Vec<u8> = Vec::new();
    let mut i: usize = 0;
    while i < source.len()
        invariant
            i <= source@.len(),
            bytes@ =~= source@.take(i as int),
        decreases source.len() - i,
    {
        bytes.push(source[i]);
        i = i + 1;
    }
    assert(bytes@ =~= source@);
    bytes
}

/// Adds a constant to the pool as one piece of data, and returns its key.
pub fn build_const_data(
    pool: &mut ConstPool,
    value: &ConstValue,
    ty: &ResolvedType,
    pointer_bytes: u32,
) -> (key: Option<Vec<u8>>)
    requires
        measurable(*ty, pointer_bytes),
        const_fits(*value, *ty, pointer_bytes),
    ensures
        match value_pooled(*value, *ty, old(pool)@, pointer_bytes) {
            Some(after) => {
                &&& key is Some
                &&& key->0@ == identity(*value, *ty, pointer_bytes)
                &&& final(pool)@ == after
            },
            None => key is None,
        },
    decreases ty, 1int,
{
    let mut identity_bytes: Vec<u8> = Vec::new();
    hash_const_element(&mut identity_bytes, value, ty, pointer_bytes);
    assert(identity_bytes@ =~= identity(*value, *ty, pointer_bytes));
    let key = DataKey::Blob(identity_bytes);
    let copy: Vec<u8> = copy_bytes(&key);
    if pool.contains(&key) {
        return Some(copy);
    }
    let mut blob: ConstBlob = zero_blob(total_bytes(ty, pointer_bytes));
    if !write_const_element(pool, &mut blob, 0, value, ty, pointer_bytes) {
        return None;
    }
    pool.push(DataObject { key, blob });
    Some(copy)
}

/// Adds what a reference refers to to the pool, and returns its key.
pub fn build_target_data(
    pool: &mut ConstPool,
    inner: &ConstValue,
    pointee: &ResolvedType,
    pointer_bytes: u32,
) -> (key: Option<Vec<u8>>)
    requires
        match *inner {
            ConstValue::Array(elements) => elements_fit(elements@, *pointee, pointer_bytes),
            _ => measurable(*pointee, pointer_bytes) && const_fits(
                *inner,
                *pointee,
                pointer_bytes,
            ),
        },
    ensures
        match target_pooled(*inner, *pointee, old(pool)@, pointer_bytes) {
            Some(after) => {
                &&& key is Some
                &&& key->0@ == target_identity(*inner, *pointee, pointer_bytes)
                &&& final(pool)@ == after
            },
            None => key is None,
        },
    decreases pointee, 3int,
{
    match inner {
        ConstValue::Array(elements) => build_const_slice_data(
            pool,
            elements,
            pointee,
            pointer_bytes,
        ),
        _ => build_const_data(pool, inner, pointee, pointer_bytes),
    }
}

/// A constant as the initial contents of a variable.
pub fn build_const_blob(
    pool: &mut ConstPool,
    value: &ConstValue,
    ty: &ResolvedType,
    pointer_bytes: u32,
) -> (blob: Option<ConstBlob>)
    requires
        measurable(*ty, pointer_bytes),
        const_fits(*value, *ty, pointer_bytes),
    ensures
        match written(
            *value,
            *ty,
            0,
            Writing { pool: old(pool)@, blob: zeros(size_of(*ty, pointer_bytes)) },
            pointer_bytes,
        ) {
            Some(w) => blob is Some && blob->0@ == w.blob && final(pool)@ == w.pool,
            None => blob is None,
        },
{
    let mut blob: ConstBlob = zero_blob(total_bytes(ty, pointer_bytes));
    if write_const_element(pool, &mut blob, 0, value, ty, pointer_bytes) {
        Some(blob)
    } else {
        None
    }
}

} // verus!
