//! Data objects as Cranelift's module layer takes them.

use crate::codegen::constants::{reloc_views, BlobView, ConstBlob, Reloc};
use crate::hir::HirId;
use cranelift::codegen::ir::{FuncRef, GlobalValue};
use cranelift_module::{DataDescription, ModuleRelocTarget};
use vstd::prelude::*;

verus! {

/// `cranelift_module::DataDescription`, a data object in the making: its
/// contents, the names it refers to, and where it holds their addresses.
#[verifier::external_type_specification]
#[verifier::external_body]
pub struct ExDataDescription(DataDescription);

/// The contents of a data object, once they are defined; zeros are that many
/// zero bytes.
pub uninterp spec fn contents_of(data: DataDescription) -> Seq<Seq<u8>>;

/// The data a data object refers to, by name space and number.
pub uninterp spec fn data_imports(data: DataDescription) -> Seq<(u32, u32)>;

/// The functions a data object refers to, by name space and number.
pub uninterp spec fn function_imports(data: DataDescription) -> Seq<(u32, u32)>;

/// Where a data object holds addresses of data: the offset, the position of
/// the data among those it refers to, and what is added to the address.
pub uninterp spec fn data_addresses(data: DataDescription) -> Seq<(u32, u32, i64)>;

/// Where a data object holds addresses of functions: the offset, and the
/// position of the function among those it refers to.
pub uninterp spec fn function_addresses(data: DataDescription) -> Seq<(u32, u32)>;

/// What a data object says.
pub struct DataView {
    pub contents: Seq<Seq<u8>>,
    pub data: Seq<(u32, u32)>,
    pub functions: Seq<(u32, u32)>,
    pub data_at: Seq<(u32, u32, i64)>,
    pub functions_at: Seq<(u32, u32)>,
}

/// Everything that is known of a data object.
pub open spec fn data_view(data: DataDescription) -> DataView {
    DataView {
        contents: contents_of(data),
        data: data_imports(data),
        functions: function_imports(data),
        data_at: data_addresses(data),
        functions_at: function_addresses(data),
    }
}

impl DataView {
    pub open spec fn empty() -> DataView {
        DataView {
            contents: Seq::empty(),
            data: Seq::empty(),
            functions: Seq::empty(),
            data_at: Seq::empty(),
            functions_at: Seq::empty(),
        }
    }
}

/// `DataDescription::new`: nothing is defined and nothing referred to.
#[verifier::external_body]
fn new_description() -> (data: DataDescription)
    ensures
        contents_of(data).len() == 0,
        data_imports(data).len() == 0,
        function_imports(data).len() == 0,
        data_addresses(data).len() == 0,
        function_addresses(data).len() == 0,
{
    DataDescription::new()
}

/// `DataDescription::define`: the contents become the given bytes, and nothing
/// else changes. They can be defined once.
#[verifier::external_body]
fn define_bytes(data: &mut DataDescription, bytes: Vec<u8>)
    requires
        contents_of(*old(data)).len() == 0,
    ensures
        contents_of(*final(data)) == seq![bytes@],
        data_imports(*final(data)) == data_imports(*old(data)),
        function_imports(*final(data)) == function_imports(*old(data)),
        data_addresses(*final(data)) == data_addresses(*old(data)),
        function_addresses(*final(data)) == function_addresses(*old(data)),
{
    data.define(bytes.into_boxed_slice())
}

/// `DataDescription::define_zeroinit`: the contents become that many zeros, and
/// nothing else changes. They can be defined once.
#[verifier::external_body]
fn define_zeros(data: &mut DataDescription, size: usize)
    requires
        contents_of(*old(data)).len() == 0,
    ensures
        contents_of(*final(data)) == seq![Seq::new(size as nat, |i: int| 0u8)],
        data_imports(*final(data)) == data_imports(*old(data)),
        function_imports(*final(data)) == function_imports(*old(data)),
        data_addresses(*final(data)) == data_addresses(*old(data)),
        function_addresses(*final(data)) == function_addresses(*old(data)),
{
    data.define_zeroinit(size)
}

/// `DataDescription::import_global_value`: one more name is referred to as
/// data, behind the others, and its position comes back. Positions are below
/// `u32::MAX`.
#[verifier::external_body]
fn import_data(data: &mut DataDescription, namespace: u32, index: u32) -> (position: u32)
    requires
        data_imports(*old(data)).len() < u32::MAX,
    ensures
        position == data_imports(*old(data)).len(),
        contents_of(*final(data)) == contents_of(*old(data)),
        data_imports(*final(data)) == data_imports(*old(data)).push((namespace, index)),
        function_imports(*final(data)) == function_imports(*old(data)),
        data_addresses(*final(data)) == data_addresses(*old(data)),
        function_addresses(*final(data)) == function_addresses(*old(data)),
{
    data.import_global_value(ModuleRelocTarget::user(namespace, index)).as_u32()
}

/// `DataDescription::import_function`: one more name is referred to as a
/// function, behind the others, and its position comes back. Positions are
/// below `u32::MAX`.
#[verifier::external_body]
fn import_function(data: &mut DataDescription, namespace: u32, index: u32) -> (position: u32)
    requires
        function_imports(*old(data)).len() < u32::MAX,
    ensures
        position == function_imports(*old(data)).len(),
        contents_of(*final(data)) == contents_of(*old(data)),
        data_imports(*final(data)) == data_imports(*old(data)),
        function_imports(*final(data)) == function_imports(*old(data)).push((namespace, index)),
        data_addresses(*final(data)) == data_addresses(*old(data)),
        function_addresses(*final(data)) == function_addresses(*old(data)),
{
    data.import_function(ModuleRelocTarget::user(namespace, index)).as_u32()
}

/// `DataDescription::write_data_addr`: one more address of data is held,
/// behind the others.
#[verifier::external_body]
fn write_data_address(data: &mut DataDescription, offset: u32, position: u32, addend: i64)
    requires
        position < u32::MAX,
    ensures
        contents_of(*final(data)) == contents_of(*old(data)),
        data_imports(*final(data)) == data_imports(*old(data)),
        function_imports(*final(data)) == function_imports(*old(data)),
        data_addresses(*final(data)) == data_addresses(*old(data)).push((offset, position, addend)),
        function_addresses(*final(data)) == function_addresses(*old(data)),
{
    data.write_data_addr(offset, GlobalValue::from_u32(position), addend)
}

/// `DataDescription::write_function_addr`: one more address of a function is
/// held, behind the others.
#[verifier::external_body]
fn write_function_address(data: &mut DataDescription, offset: u32, position: u32)
    requires
        position < u32::MAX,
    ensures
        contents_of(*final(data)) == contents_of(*old(data)),
        data_imports(*final(data)) == data_imports(*old(data)),
        function_imports(*final(data)) == function_imports(*old(data)),
        data_addresses(*final(data)) == data_addresses(*old(data)),
        function_addresses(*final(data)) == function_addresses(*old(data)).push((offset, position)),
{
    data.write_function_addr(offset, FuncRef::from_u32(position))
}

/// The name space data is numbered in.
pub const DATA_SPACE: u32 = 1;

/// The name space functions are numbered in.
pub const FUNCTION_SPACE: u32 = 0;

/// A data object of zeros.
pub fn describe_zeros(total: u32) -> (data: DataDescription)
    ensures
        data_view(data) == (DataView {
            contents: seq![Seq::new(total as nat, |i: int| 0u8)],
            ..DataView::empty()
        }),
{
    let mut data: DataDescription = new_description();
    define_zeros(&mut data, total as usize);
    assert(data_view(data).data =~= Seq::empty());
    assert(data_view(data).functions =~= Seq::empty());
    assert(data_view(data).data_at =~= Seq::empty());
    assert(data_view(data).functions_at =~= Seq::empty());
    data
}

/// The numbers of the data that the first `n` addresses are of. Nothing where
/// one of them has no number.
pub open spec fn numbers_of(relocs: Seq<(u32, usize)>, numbers: Seq<u32>, n: nat) -> Option<
    Seq<u32>,
>
    decreases n,
{
    if n == 0 {
        Some(Seq::empty())
    } else {
        match numbers_of(relocs, numbers, (n - 1) as nat) {
            Some(before) => if relocs[n - 1].1 < numbers.len() {
                Some(before.push(numbers[relocs[n - 1].1 as int]))
            } else {
                None
            },
            None => None,
        }
    }
}

/// What the data object of a blob says: the bytes of the blob, and each of its
/// addresses in order, with the data it is of.
pub open spec fn blob_described(blob: BlobView, numbers: Seq<u32>) -> DataView {
    DataView {
        contents: seq![blob.bytes],
        data: numbers.map_values(|number: u32| (DATA_SPACE, number)),
        functions: Seq::empty(),
        data_at: Seq::new(
            blob.relocs.len(),
            |i: int| (blob.relocs[i].0, i as u32, 0i64),
        ),
        functions_at: Seq::empty(),
    }
}

proof fn lemma_numbers_stop(
    relocs: Seq<(u32, usize)>,
    numbers: Seq<u32>,
    n: nat,
    m: nat,
)
    requires
        n <= m,
        numbers_of(relocs, numbers, n) is None,
    ensures
        numbers_of(relocs, numbers, m) is None,
    decreases m,
{
    if n < m {
        lemma_numbers_stop(relocs, numbers, n, (m - 1) as nat);
    }
}

/// The data object of a blob; `numbers` holds the number of each piece of the
/// pool.
pub fn describe_blob(blob: &ConstBlob, numbers: &Vec<u32>) -> (found: Option<DataDescription>)
    ensures
        match numbers_of(blob@.relocs, numbers@, blob@.relocs.len()) {
            Some(used) => if blob@.relocs.len() < u32::MAX {
                found is Some && data_view(found->0) == blob_described(blob@, used)
            } else {
                found is None
            },
            None => found is None,
        },
{
    let relocs: &Vec<Reloc> = &blob.relocs;
    let ghost all = blob@.relocs;
    if relocs.len() as u64 >= 0xffff_ffff {
        return None;
    }
    let mut data: DataDescription = new_description();
    let ghost mut used: Seq<u32> = Seq::empty();
    let mut i: usize = 0;
    while i < relocs.len()
        invariant
            i <= relocs@.len() < u32::MAX,
            all == reloc_views(relocs@),
            all == blob@.relocs,
            numbers_of(all, numbers@, i as nat) == Some(used),
            used.len() == i,
            data_view(data).contents =~= Seq::<Seq<u8>>::empty(),
            data_view(data).functions =~= Seq::<(u32, u32)>::empty(),
            data_view(data).functions_at =~= Seq::<(u32, u32)>::empty(),
            data_view(data).data =~= used.map_values(|number: u32| (DATA_SPACE, number)),
            data_view(data).data_at =~= Seq::new(
                i as nat,
                |k: int| (all[k].0, k as u32, 0i64),
            ),
        decreases relocs.len() - i,
    {
        let reloc: &Reloc = &relocs[i];
        assert(all[i as int] == reloc@);
        let number: Option<u32> = if reloc.target < numbers.len() {
            Some(numbers[reloc.target])
        } else {
            None
        };
        match number {
            Some(number) => {
                let position: u32 = import_data(&mut data, DATA_SPACE, number);
                write_data_address(&mut data, reloc.offset, position, 0);
                proof {
                    used = used.push(number);
                }
            },
            None => {
                proof {
                    lemma_numbers_stop(all, numbers@, (i + 1) as nat, all.len());
                }
                return None;
            },
        }
        i = i + 1;
    }
    let bytes: Vec<u8> = copy_all(&blob.bytes);
    define_bytes(&mut data, bytes);
    assert(data_view(data) == blob_described(blob@, used));
    Some(data)
}

fn copy_all(bytes: &Vec<u8>) -> (copy: Vec<u8>)
    ensures
        copy@ == bytes@,
{
    let mut copy: Vec<u8> = Vec::new();
    let mut i: usize = 0;
    while i < bytes.len()
        invariant
            i <= bytes@.len(),
            copy@ =~= bytes@.take(i as int),
        decreases bytes.len() - i,
    {
        copy.push(bytes[i]);
        i = i + 1;
    }
    assert(copy@ =~= bytes@);
    copy
}

/// The number a function was declared under, the last time it was.
pub open spec fn function_number(declared: Seq<(HirId, u32)>, id: HirId) -> Option<u32>
    decreases declared.len(),
{
    if declared.len() == 0 {
        None
    } else if declared.last().0 == id {
        Some(declared.last().1)
    } else {
        function_number(declared.drop_last(), id)
    }
}

/// The numbers of the first `n` methods of a table.
pub open spec fn slot_numbers(slots: Seq<HirId>, declared: Seq<(HirId, u32)>, n: nat) -> Option<
    Seq<u32>,
>
    decreases n,
{
    if n == 0 {
        Some(Seq::empty())
    } else {
        match (
            slot_numbers(slots, declared, (n - 1) as nat),
            function_number(declared, slots[n - 1]),
        ) {
            (Some(before), Some(number)) => Some(before.push(number)),
            _ => None,
        }
    }
}

/// What the data object of a method table says: room for an address for each
/// method, and each of the addresses in order.
pub open spec fn table_described(numbers: Seq<u32>, pointer_bytes: u32) -> DataView {
    DataView {
        contents: seq![Seq::new((numbers.len() * pointer_bytes) as nat, |i: int| 0u8)],
        data: Seq::empty(),
        functions: numbers.map_values(|number: u32| (FUNCTION_SPACE, number)),
        data_at: Seq::empty(),
        functions_at: Seq::new(
            numbers.len(),
            |i: int| ((i * pointer_bytes) as u32, i as u32),
        ),
    }
}

proof fn lemma_slots_stop(slots: Seq<HirId>, declared: Seq<(HirId, u32)>, n: nat, m: nat)
    requires
        n <= m,
        slot_numbers(slots, declared, n) is None,
    ensures
        slot_numbers(slots, declared, m) is None,
    decreases m,
{
    if n < m {
        lemma_slots_stop(slots, declared, n, (m - 1) as nat);
    }
}

fn number_of_function(declared: &Vec<(HirId, u32)>, id: HirId) -> (number: Option<u32>)
    ensures
        number == function_number(declared@, id),
{
    let mut i: usize = declared.len();
    assert(declared@.take(i as int) =~= declared@);
    while i > 0
        invariant
            i <= declared@.len(),
            function_number(declared@, id) == function_number(declared@.take(i as int), id),
        decreases i,
    {
        assert(declared@.take(i as int).drop_last() =~= declared@.take(i - 1));
        i = i - 1;
        let entry: (HirId, u32) = declared[i];
        if entry.0 == id {
            return Some(entry.1);
        }
    }
    None
}

fn zero_bytes(count: usize) -> (bytes: Vec<u8>)
    ensures
        bytes@ == Seq::new(count as nat, |i: int| 0u8),
{
    let mut bytes: Vec<u8> = Vec::new();
    let mut i: usize = 0;
    while i < count
        invariant
            i <= count,
            bytes@ =~= Seq::new(i as nat, |k: int| 0u8),
        decreases count - i,
    {
        bytes.push(0);
        i = i + 1;
    }
    bytes
}

/// The data object of a method table; `declared` holds the number of each
/// function. Nothing where a method has none or the table outgrows 32 bits.
pub fn describe_table(slots: &Vec<HirId>, declared: &Vec<(HirId, u32)>, pointer_bytes: u32) -> (
    found: Option<DataDescription>)
    requires
        pointer_bytes >= 1,
    ensures
        match slot_numbers(slots@, declared@, slots@.len()) {
            Some(numbers) => if slots@.len() * pointer_bytes < u32::MAX {
                found is Some && data_view(found->0) == table_described(numbers, pointer_bytes)
            } else {
                found is None
            },
            None => found is None,
        },
{
    let mut data: DataDescription = new_description();
    let ghost mut used: Seq<u32> = Seq::empty();
    let mut size: u32 = 0;
    let mut i: usize = 0;
    while i < slots.len()
        invariant
            i <= slots@.len(),
            pointer_bytes >= 1,
            size == i * pointer_bytes,
            i <= size < u32::MAX,
            slot_numbers(slots@, declared@, i as nat) == Some(used),
            used.len() == i,
            data_view(data).contents =~= Seq::<Seq<u8>>::empty(),
            data_view(data).data =~= Seq::<(u32, u32)>::empty(),
            data_view(data).data_at =~= Seq::<(u32, u32, i64)>::empty(),
            data_view(data).functions =~= used.map_values(
                |number: u32| (FUNCTION_SPACE, number),
            ),
            data_view(data).functions_at =~= Seq::new(
                i as nat,
                |k: int| ((k * pointer_bytes) as u32, k as u32),
            ),
        decreases slots.len() - i,
    {
        proof {
            assert((i + 1) * pointer_bytes == i * pointer_bytes + pointer_bytes) by (nonlinear_arith);
        }
        if pointer_bytes as u64 + size as u64 >= 0xffff_ffff {
            proof {
                assert(slots@.len() * pointer_bytes >= (i + 1) * pointer_bytes) by (nonlinear_arith)
                    requires
                        slots@.len() >= i + 1,
                        pointer_bytes >= 1,
                ;
            }
            return None;
        }
        match number_of_function(declared, slots[i]) {
            Some(number) => {
                let position: u32 = import_function(&mut data, FUNCTION_SPACE, number);
                write_function_address(&mut data, size, position);
                proof {
                    used = used.push(number);
                }
            },
            None => {
                proof {
                    lemma_slots_stop(slots@, declared@, (i + 1) as nat, slots@.len());
                }
                return None;
            },
        }
        size = size + pointer_bytes;
        i = i + 1;
    }
    let bytes: Vec<u8> = zero_bytes(size as usize);
    define_bytes(&mut data, bytes);
    assert(data_view(data) == table_described(used, pointer_bytes));
    Some(data)
}

} // verus!
