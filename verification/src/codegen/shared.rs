//! What both code generators decide alike.

use crate::hir::HirId;
use crate::resolved_type::{NumericKind, ResolvedType};
use std::rc::Rc;
use vstd::prelude::*;

verus! {

/// The table of the methods a type has for a spec object, in the order the
/// analysis resolved.
#[derive(Debug)]
pub struct Vtable {
    pub concrete: ResolvedType,
    pub object: ResolvedType,
    pub slots: Rc<Vec<HirId>>,
}

/// Whether a list of declarations holds `id`.
pub fn is_declared(ids: &Vec<HirId>, id: HirId) -> (r: bool)
    ensures
        r == ids@.contains(id),
{
    let mut i: usize = 0;
    while i < ids.len()
        invariant
            i <= ids@.len(),
            forall|k: int| 0 <= k < i ==> ids@[k] != id,
        decreases ids.len() - i,
    {
        if ids[i] == id {
            return true;
        }
        i = i + 1;
    }
    false
}

/// What arithmetic the operands of an operator take part in.
pub open spec fn operand_kind(ty: ResolvedType, pointer_bits: u32) -> Option<NumericKind> {
    match ty {
        ResolvedType::Char => Some(NumericKind::Unsigned(32)),
        ResolvedType::Bool => Some(NumericKind::Unsigned(8)),
        _ => ty.kind_of_number(pointer_bits),
    }
}

pub fn kind_of_operand(ty: &ResolvedType, pointer_bits: u32) -> (kind: Option<NumericKind>)
    ensures
        kind == operand_kind(*ty, pointer_bits),
{
    match ty {
        ResolvedType::Char => Some(NumericKind::Unsigned(32)),
        ResolvedType::Bool => Some(NumericKind::Unsigned(8)),
        _ => ty.numeric_kind(pointer_bits),
    }
}

/// Whether a type's values are floats.
pub open spec fn is_float(ty: ResolvedType, pointer_bits: u32) -> bool {
    match ty.kind_of_number(pointer_bits) {
        Some(NumericKind::Float(_)) => true,
        _ => false,
    }
}

/// The length an array loses when a pointer to it becomes a slice.
pub open spec fn unsized_length(ty: ResolvedType) -> Option<u32> {
    match ty {
        ResolvedType::Pointer { pointee, .. } => match *pointee {
            ResolvedType::SizedArray(_, size) => Some(size),
            _ => None,
        },
        _ => None,
    }
}

/// The position of the table with these slots, from `from` on.
pub open spec fn table_position(tables: Seq<Vtable>, slots: Seq<HirId>, from: int) -> Option<int>
    decreases tables.len() - from,
{
    if from < 0 || from >= tables.len() {
        None
    } else if tables[from].slots@ == slots {
        Some(from)
    } else {
        table_position(tables, slots, from + 1)
    }
}

/// Whether two tables hold the same methods.
pub fn same_slots(a: &Vec<HirId>, b: &Vec<HirId>) -> (r: bool)
    ensures
        r == (a@ == b@),
{
    if a.len() != b.len() {
        return false;
    }
    let mut i: usize = 0;
    while i < a.len()
        invariant
            i <= a@.len() == b@.len(),
            forall|k: int| 0 <= k < i ==> a@[k] == b@[k],
        decreases a.len() - i,
    {
        if a[i] != b[i] {
            return false;
        }
        i = i + 1;
    }
    assert(a@ =~= b@);
    true
}

/// Whether every method of a table has been declared.
pub fn all_declared(ids: &Vec<HirId>, slots: &Vec<HirId>) -> (r: bool)
    ensures
        r == forall|i: int| 0 <= i < slots@.len() ==> ids@.contains(#[trigger] slots@[i]),
{
    let mut i: usize = 0;
    while i < slots.len()
        invariant
            i <= slots@.len(),
            forall|k: int| 0 <= k < i ==> ids@.contains(#[trigger] slots@[k]),
        decreases slots.len() - i,
    {
        if !is_declared(ids, slots[i]) {
            return false;
        }
        i = i + 1;
    }
    true
}

/// Whether tables hold declared functions only.
#[verifier::opaque]
pub open spec fn tabled(functions: Seq<HirId>, tables: Seq<Vtable>) -> bool {
    forall|i: int, j: int|
        0 <= i < tables.len() && 0 <= j < tables[i].slots@.len() ==> functions.contains(
            #[trigger] tables[i].slots@[j],
        )
}

pub(crate) proof fn lemma_table_found(tables: Seq<Vtable>, slots: Seq<HirId>, from: int)
    ensures
        match table_position(tables, slots, from) {
            Some(index) => 0 <= index < tables.len(),
            None => true,
        },
    decreases tables.len() - from,
{
    if 0 <= from < tables.len() && tables[from].slots@ != slots {
        lemma_table_found(tables, slots, from + 1);
    }
}

} // verus!
