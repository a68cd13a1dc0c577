//! Places: where a value is, and what leads there.

use crate::codegen::constants::{forward, moved};
use crate::codegen::llvm::expr::expr_lowered;
use crate::codegen::llvm::{
    addressed, const_int, copy_values, index_ir, index_type, int_value, loaded, loaded_aligned,
    one_value, pointer_to, pointer_value, spilled, Arith, Convert, Frame, FrameView, Lowered,
    Lowering, LoweringView, Op, Operand, PlaceStorage, SlotUse, Storage, Value, ValueType,
};
use crate::codegen::fits::{node_fits, place_fits, projection_fits, projections_fit};
use crate::codegen::mir::{MirPlace, MirPlaceRoot, MirProjection};
use crate::codegen::shared::is_declared;
use crate::layout::{
    body_at, dynamic_at, enum_measurable, field_byte_offset, field_parts, header_at, leaves_of,
    leaves_spec, measurable, named_body_offset, named_dynamic_offset, named_dynamic_start,
    named_header_offset, named_header_start, named_prefix, parts_measurable, plan_offset, plan_start, size_of,
    struct_layout, total_bytes, FieldLayout,
};
use crate::resolved_type::{ResolvedEnumType, ResolvedStructType, ResolvedType};
use std::rc::Rc;
use vstd::prelude::*;

verus! {

/// A place on the way to being resolved: what has been emitted, where the
/// value is, and its type.
pub struct PlaceState {
    pub state: LoweringView,
    pub storage: Storage,
    pub ty: ResolvedType,
}

/// A storage in memory, further along.
pub open spec fn shifted(storage: Storage, by: nat) -> Option<Storage> {
    match storage {
        Storage::Values(_) => None,
        Storage::Memory { base, offset } => match moved(offset, by) {
            Some(offset) => Some(Storage::Memory { base, offset }),
            None => None,
        },
    }
}

/// Some of the values of an aggregate.
pub open spec fn part(values: Seq<Value>, start: nat, len: nat) -> Option<Storage> {
    if start + len <= values.len() {
        Some(Storage::Values(values.subrange(start as int, (start + len) as int)))
    } else {
        None
    }
}

/// The storage of a struct's field.
pub open spec fn field_storage(
    storage: Storage,
    cell: ResolvedStructType,
    index: int,
    pointer_bytes: u32,
) -> Option<Storage> {
    let parts = field_parts(cell.fields@, pointer_bytes);
    let pack = cell.layout.pack as nat;
    match storage {
        Storage::Values(values) => part(
            values,
            plan_start(parts, index, pack, pointer_bytes),
            leaves_spec(cell.fields@[index].ty, pointer_bytes).len(),
        ),
        _ => shifted(storage, plan_offset(parts, index, pack, pointer_bytes)),
    }
}

/// The storage of a field in an enum's prefix: its position there, where it
/// lies, and its type.
pub open spec fn prefix_storage(
    storage: Storage,
    cell: ResolvedEnumType,
    position: int,
    at: nat,
    ty: ResolvedType,
    pointer_bytes: u32,
) -> Option<Storage> {
    match storage {
        Storage::Values(values) => part(
            values,
            plan_start(
                named_prefix(cell, pointer_bytes),
                position,
                cell.layout.pack as nat,
                pointer_bytes,
            ),
            leaves_spec(ty, pointer_bytes).len(),
        ),
        _ => shifted(storage, at),
    }
}

/// One of two values, or what lies `by` bytes along.
pub open spec fn half_storage(storage: Storage, index: int, by: nat) -> Option<Storage> {
    match storage {
        Storage::Values(values) => if index < values.len() {
            Some(Storage::Values(seq![values[index]]))
        } else {
            None
        },
        _ => shifted(storage, by),
    }
}

/// A storage that can be addressed: what is in values is spilled.
pub open spec fn in_memory(
    s: LoweringView,
    storage: Storage,
    ty: ResolvedType,
    pointer_bytes: u32,
) -> Option<(LoweringView, Storage)> {
    match storage {
        Storage::Values(values) => spilled(s, values, ty, SlotUse::UnionSpill, pointer_bytes),
        _ => Some((s, storage)),
    }
}

/// An integer widened to the type addresses are computed in, where it has
/// another.
pub open spec fn index_wide(s: LoweringView, value: Value, pointer_bytes: u32) -> Lowered {
    if value.ty == index_ir(pointer_bytes) {
        s.having(value)
    } else {
        s.define(Op::Convert { op: Convert::ZeroExtend, value }, index_ir(pointer_bytes))
    }
}

/// The address that many elements along.
pub open spec fn element_address(
    s: LoweringView,
    base: Value,
    index: Value,
    size: nat,
    pointer_bytes: u32,
) -> Option<Lowered> {
    let ty = index_ir(pointer_bytes);
    if base.ty is Ptr && index.ty.integral() {
        let wide = index_wide(s, index, pointer_bytes);
        let along = wide.state.define(
            Op::Binary {
                op: Arith::IntMul,
                left: wide.values[0],
                right: int_value(ty, size as u64),
            },
            ty,
        );
        Some(along.state.define(Op::Gep { base, offset: along.values[0] }, ValueType::Ptr))
    } else {
        None
    }
}

/// The first of some values, which must be an address.
pub open spec fn first_pointer(lowered: Option<Lowered>) -> Option<Lowered> {
    match lowered {
        Some(found) => if found.values.len() > 0 && found.values[0].ty is Ptr {
            Some(Lowered { values: seq![found.values[0]], ..found })
        } else {
            None
        },
        None => None,
    }
}

/// The address where the elements of a sequence start: where an array lies, or
/// the pointer that another sequence holds.
pub open spec fn elements_base(
    s: LoweringView,
    storage: Storage,
    ty: ResolvedType,
    pointer_bytes: u32,
) -> Option<Lowered> {
    match ty {
        ResolvedType::SizedArray(_, _) => addressed(s, storage, pointer_bytes),
        ResolvedType::Array(_, _) | ResolvedType::Slice { .. } | ResolvedType::Str { .. } => {
            first_pointer(loaded_aligned(s, storage, ty, pointer_bytes))
        },
        _ => None,
    }
}

/// Where a place starts.
pub open spec fn root_resolved(frame: FrameView, root: MirPlaceRoot, s: LoweringView) -> Option<
    PlaceState,
>
    decreases root, 0int, 0nat,
{
    match root {
        MirPlaceRoot::Local { id, ty } => if id.0 < frame.arg_count {
            if id.0 < frame.local_args.len() {
                Some(
                    PlaceState {
                        state: s,
                        storage: Storage::Values(frame.local_args[id.0 as int]),
                        ty,
                    },
                )
            } else {
                None
            }
        } else if id.0 < frame.local_offsets.len() {
            Some(
                PlaceState {
                    state: s,
                    storage: Storage::Memory {
                        base: frame.frame_slot,
                        offset: frame.local_offsets[id.0 as int],
                    },
                    ty,
                },
            )
        } else {
            None
        },
        MirPlaceRoot::Function(_) => None,
        MirPlaceRoot::Global { id, ty } => if frame.globals.contains(id) {
            Some(
                PlaceState {
                    state: s,
                    storage: Storage::Memory {
                        base: pointer_value(Operand::Global(id)),
                        offset: 0,
                    },
                    ty,
                },
            )
        } else {
            None
        },
        MirPlaceRoot::Expr(expr) => match expr_lowered(frame, *expr, s) {
            Some(lowered) => match spilled(
                lowered.state,
                lowered.values,
                expr.ty,
                SlotUse::Tmp,
                frame.pb(),
            ) {
                Some((state, storage)) => Some(PlaceState { state, storage, ty: expr.ty }),
                None => None,
            },
            None => None,
        },
    }
}

/// One step further.
pub open spec fn projected(frame: FrameView, p: PlaceState, projection: MirProjection) -> Option<
    PlaceState,
>
    decreases projection, 0int, 0nat,
{
    let pb = frame.pb();
    match projection {
        MirProjection::FieldAccess { index, ty } => match p.ty {
            ResolvedType::Struct(cell) => if index < cell.fields@.len() {
                match field_storage(p.storage, *cell, index as int, pb) {
                    Some(storage) => Some(PlaceState { storage, ty, ..p }),
                    None => None,
                }
            } else {
                None
            },
            _ => None,
        },
        MirProjection::UnionField { ty } => match in_memory(p.state, p.storage, p.ty, pb) {
            Some((state, storage)) => Some(PlaceState { state, storage, ty }),
            None => None,
        },
        MirProjection::Deref { ty } => match first_pointer(
            loaded_aligned(p.state, p.storage, p.ty, pb),
        ) {
            Some(found) => Some(
                PlaceState {
                    state: found.state,
                    storage: Storage::Memory { base: found.values[0], offset: 0 },
                    ty,
                },
            ),
            None => None,
        },
        MirProjection::Index { index_expr, item_type } => match elements_base(
            p.state,
            p.storage,
            p.ty,
            pb,
        ) {
            Some(base) => match expr_lowered(frame, *index_expr, base.state) {
                Some(index) => if index.values.len() > 0 {
                    match element_address(
                        index.state,
                        base.values[0],
                        index.values[0],
                        size_of(item_type, pb),
                        pb,
                    ) {
                        Some(address) => Some(
                            PlaceState {
                                state: address.state,
                                storage: Storage::Memory { base: address.values[0], offset: 0 },
                                ty: item_type,
                            },
                        ),
                        None => None,
                    }
                } else {
                    None
                },
                None => None,
            },
            None => None,
        },
        MirProjection::EnumTag { ty } => match p.ty {
            ResolvedType::Enum { cell, .. } => match p.storage {
                Storage::Values(values) => match part(
                    values,
                    0,
                    leaves_spec(cell.tag_type, pb).len(),
                ) {
                    Some(storage) => Some(PlaceState { storage, ty, ..p }),
                    None => None,
                },
                _ => Some(PlaceState { ty, ..p }),
            },
            _ => None,
        },
        MirProjection::EnumHeader { index, ty } => match p.ty {
            ResolvedType::Enum { cell, .. } => if index < cell.header@.len() {
                match prefix_storage(
                    p.storage,
                    *cell,
                    1 + index,
                    header_at(*cell, index as int, pb),
                    cell.header@[index as int].ty,
                    pb,
                ) {
                    Some(storage) => Some(PlaceState { storage, ty, ..p }),
                    None => None,
                }
            } else {
                None
            },
            _ => None,
        },
        MirProjection::EnumDynamicField { index, ty } => match p.ty {
            ResolvedType::Enum { cell, .. } => if index < cell.dynamic_fields@.len() {
                match prefix_storage(
                    p.storage,
                    *cell,
                    1 + cell.header@.len() + index,
                    dynamic_at(*cell, index as int, pb),
                    cell.dynamic_fields@[index as int].ty,
                    pb,
                ) {
                    Some(storage) => Some(PlaceState { storage, ty, ..p }),
                    None => None,
                }
            } else {
                None
            },
            _ => None,
        },
        MirProjection::EnumBody { variant_index, field_index, ty } => match p.ty {
            ResolvedType::Enum { cell, .. } => if variant_index < cell.variants@.len()
                && field_index < cell.variants@[variant_index as int].fields@.len() {
                match shifted(
                    p.storage,
                    body_at(*cell, variant_index as int, field_index as int, pb),
                ) {
                    Some(storage) => Some(PlaceState { storage, ty, ..p }),
                    None => None,
                }
            } else {
                None
            },
            _ => None,
        },
        MirProjection::SliceLength => match half_storage(p.storage, 1, pb as nat) {
            Some(storage) => Some(PlaceState { storage, ty: ResolvedType::I32, ..p }),
            None => None,
        },
        MirProjection::SpecObjectPtr { mutable } => match half_storage(p.storage, 0, 0) {
            Some(storage) => Some(
                PlaceState {
                    storage,
                    ty: ResolvedType::Pointer { pointee: Rc::new(ResolvedType::U8), mutable },
                    ..p
                },
            ),
            None => None,
        },
        MirProjection::SpecObjectVtable => match half_storage(p.storage, 1, pb as nat) {
            Some(storage) => Some(
                PlaceState {
                    storage,
                    ty: ResolvedType::Pointer {
                        pointee: Rc::new(ResolvedType::U8),
                        mutable: false,
                    },
                    ..p
                },
            ),
            None => None,
        },
    }
}

/// The first `n` steps, one after the other.
pub open spec fn all_projected(
    frame: FrameView,
    p: PlaceState,
    projections: Seq<MirProjection>,
    n: nat,
) -> Option<PlaceState>
    decreases projections, 0int, n,
{
    if n == 0 || n > projections.len() {
        Some(p)
    } else {
        match all_projected(frame, p, projections, (n - 1) as nat) {
            Some(before) => projected(frame, before, projections[n - 1]),
            None => None,
        }
    }
}

/// Where a place's value is.
pub open spec fn place_resolved(frame: FrameView, place: MirPlace, s: LoweringView) -> Option<
    PlaceState,
>
    decreases place, 0int, 0nat,
{
    match root_resolved(frame, place.root, s) {
        Some(root) => all_projected(
            frame,
            root,
            place.projections@,
            place.projections@.len(),
        ),
        None => None,
    }
}

/// The value of a place. A function is its address: it is code, not data.
pub open spec fn place_lowered(frame: FrameView, place: MirPlace, s: LoweringView) -> Option<Lowered>
    decreases place, 1int, 0nat,
{
    match place.root {
        MirPlaceRoot::Function(id) => if frame.functions.contains(id) {
            Some(s.having(pointer_value(Operand::Function(id))))
        } else {
            None
        },
        _ => match place_resolved(frame, place, s) {
            Some(found) => loaded(found.state, found.storage, found.ty, place.align, frame.pb()),
            None => None,
        },
    }
}

proof fn lemma_projecting_stops(
    frame: FrameView,
    p: PlaceState,
    projections: Seq<MirProjection>,
    n: nat,
    m: nat,
)
    requires
        n <= m <= projections.len(),
        all_projected(frame, p, projections, n) is None,
    ensures
        all_projected(frame, p, projections, m) is None,
    decreases m,
{
    if n < m {
        lemma_projecting_stops(frame, p, projections, n, (m - 1) as nat);
    }
}

fn shift(storage: PlaceStorage, by: u32) -> (found: Option<PlaceStorage>)
    ensures
        match shifted(storage@, by as nat) {
            Some(next) => found is Some && found->0@ == next,
            None => found is None,
        },
{
    match storage {
        PlaceStorage::Values(_) => None,
        PlaceStorage::Memory { base, offset } => match forward(offset, by) {
            Some(offset) => Some(PlaceStorage::Memory { base, offset }),
            None => None,
        },
    }
}

fn part_of(values: &Vec<Value>, start: usize, len: usize) -> (found: Option<PlaceStorage>)
    ensures
        match part(values@, start as nat, len as nat) {
            Some(next) => found is Some && found->0@ == next,
            None => found is None,
        },
{
    if start > values.len() || len > values.len() - start {
        return None;
    }
    let mut some: Vec<Value> = Vec::new();
    let mut i: usize = 0;
    while i < len
        invariant
            i <= len,
            start + len <= values.len(),
            some@ =~= values@.subrange(start as int, (start + i) as int),
        decreases len - i,
    {
        some.push(values[start + i]);
        i = i + 1;
    }
    Some(PlaceStorage::Values(some))
}

fn half(storage: PlaceStorage, index: usize, by: u32) -> (found: Option<PlaceStorage>)
    ensures
        match half_storage(storage@, index as int, by as nat) {
            Some(next) => found is Some && found->0@ == next,
            None => found is None,
        },
{
    match storage {
        PlaceStorage::Values(values) => if index < values.len() {
            Some(PlaceStorage::Values(one_value(values[index])))
        } else {
            None
        },
        other => shift(other, by),
    }
}

fn field_of(storage: PlaceStorage, cell: &ResolvedStructType, index: usize, pointer_bytes: u32) -> (
    found: Option<PlaceStorage>)
    requires
        measurable(ResolvedType::Struct(Rc::new(*cell)), pointer_bytes),
        index < cell.fields@.len(),
    ensures
        match field_storage(storage@, *cell, index as int, pointer_bytes) {
            Some(next) => found is Some && found->0@ == next,
            None => found is None,
        },
{
    match storage {
        PlaceStorage::Values(values) => {
            let layout: FieldLayout = struct_layout(cell, pointer_bytes);
            proof {
                crate::layout::lemma_field_parts(cell.fields@, pointer_bytes);
                assert(parts_measurable(
                    ResolvedType::Struct(Rc::new(*cell)),
                    pointer_bytes,
                ));
                assert(crate::layout::fields_measurable(cell.fields@, pointer_bytes));
                assert(measurable(cell.fields@[index as int].ty, pointer_bytes));
            }
            let len: usize = leaves_of(&cell.fields[index].ty, pointer_bytes).len();
            part_of(&values, layout.leaf_starts[index], len)
        },
        other => shift(other, field_byte_offset(cell, index, pointer_bytes)),
    }
}

/// The first of some values, where it is an address.
pub fn pointer_in(values: &Option<Vec<Value>>) -> (value: Option<Value>)
    ensures
        match *values {
            Some(found) => if found@.len() > 0 && found@[0].ty is Ptr {
                value == Some(found@[0])
            } else {
                value is None
            },
            None => value is None,
        },
{
    match values {
        Some(found) => if found.len() > 0 && found[0].ty.is_pointer_type() {
            Some(found[0])
        } else {
            None
        },
        None => None,
    }
}

impl Lowering {
    fn to_memory(&mut self, storage: PlaceStorage, ty: &ResolvedType, pointer_bytes: u32) -> (found:
        Option<PlaceStorage>)
        requires
            measurable(*ty, pointer_bytes),
        ensures
            match in_memory(old(self)@, storage@, *ty, pointer_bytes) {
                Some((after, next)) => {
                    &&& found is Some
                    &&& found->0@ == next
                    &&& final(self)@ == after
                },
                None => found is None,
            },
    {
        match storage {
            PlaceStorage::Values(values) => self.spill(
                &values,
                ty,
                SlotUse::UnionSpill,
                pointer_bytes,
            ),
            other => Some(other),
        }
    }

    /// Widens an integer to the type addresses are computed in.
    pub fn widen_index(&mut self, value: Value, pointer_bytes: u32) -> (wide: Value)
        ensures
            final(self)@ == index_wide(old(self)@, value, pointer_bytes).state,
            seq![wide] == index_wide(old(self)@, value, pointer_bytes).values,
    {
        if value.ty == index_type(pointer_bytes) {
            value
        } else {
            self.define(
                Op::Convert { op: Convert::ZeroExtend, value },
                index_type(pointer_bytes),
            )
        }
    }

    /// The address that many elements along.
    pub fn element_at(&mut self, base: Value, index: Value, size: u32, pointer_bytes: u32) -> (
        address: Option<Value>)
        ensures
            match element_address(old(self)@, base, index, size as nat, pointer_bytes) {
                Some(lowered) => {
                    &&& address is Some
                    &&& lowered.values == seq![address->0]
                    &&& final(self)@ == lowered.state
                },
                None => address is None,
            },
    {
        if !base.ty.is_pointer_type() || !index.ty.is_int_type() {
            return None;
        }
        let ty: ValueType = index_type(pointer_bytes);
        let wide: Value = self.widen_index(index, pointer_bytes);
        let along: Value = self.define(
            Op::Binary { op: Arith::IntMul, left: wide, right: const_int(ty, size as u64) },
            ty,
        );
        let address: Value = self.gep(base, along);
        Some(address)
    }

    fn base_of_elements(
        &mut self,
        storage: &PlaceStorage,
        ty: &ResolvedType,
        pointer_bytes: u32,
    ) -> (base: Option<Value>)
        requires
            measurable(*ty, pointer_bytes),
        ensures
            match elements_base(old(self)@, storage@, *ty, pointer_bytes) {
                Some(lowered) => {
                    &&& base is Some
                    &&& lowered.values == seq![base->0]
                    &&& final(self)@ == lowered.state
                },
                None => base is None,
            },
    {
        match ty {
            ResolvedType::SizedArray(_, _) => self.place_storage_address(storage, pointer_bytes),
            ResolvedType::Array(_, _) | ResolvedType::Slice { .. } | ResolvedType::Str { .. } => {
                pointer_in(&self.load_aligned(storage, ty, pointer_bytes))
            },
            _ => None,
        }
    }
}

proof fn lemma_enum_measurable(ty: &ResolvedType, pointer_bytes: u32)
    requires
        measurable(*ty, pointer_bytes),
    ensures
        match *ty {
            ResolvedType::Enum { cell, .. } => {
                &&& enum_measurable(*cell, pointer_bytes)
                &&& measurable(cell.tag_type, pointer_bytes)
                &&& crate::layout::fields_measurable(cell.header@, pointer_bytes)
                &&& crate::layout::fields_measurable(cell.dynamic_fields@, pointer_bytes)
            },
            _ => true,
        },
{
    assert(parts_measurable(*ty, pointer_bytes));
    match ty {
        ResolvedType::Enum { cell, .. } => {
            assert(parts_measurable(
                ResolvedType::Enum { cell: *cell, variant: None },
                pointer_bytes,
            ));
        },
        _ => {},
    }
}

proof fn lemma_simple_measurable(pointer_bytes: u32)
    requires
        pointer_bytes <= 8,
    ensures
        measurable(ResolvedType::I32, pointer_bytes),
        forall|mutable: bool|
            #[trigger] measurable(
                ResolvedType::Pointer { pointee: Rc::new(ResolvedType::U8), mutable },
                pointer_bytes,
            ),
{
    let one = seq![crate::layout::Leaf::I32];
    assert(one.drop_last() =~= Seq::empty());
    assert(crate::layout::leaf_bytes(Seq::empty(), pointer_bytes) == 0);
    assert(crate::layout::leaf_bytes(one, pointer_bytes) == 4);
    assert(parts_measurable(ResolvedType::I32, pointer_bytes));
    let pointer = seq![crate::layout::Leaf::Ptr];
    assert(pointer.drop_last() =~= Seq::empty());
    assert(crate::layout::leaf_bytes(pointer, pointer_bytes) == pointer_bytes);
    assert forall|mutable: bool|
        #[trigger] measurable(
            ResolvedType::Pointer { pointee: Rc::new(ResolvedType::U8), mutable },
            pointer_bytes,
        ) by {
        assert(parts_measurable(
            ResolvedType::Pointer { pointee: Rc::new(ResolvedType::U8), mutable },
            pointer_bytes,
        ));
    }
}

fn prefix_of(
    storage: PlaceStorage,
    start: usize,
    at: u32,
    ty: &ResolvedType,
    cell: &ResolvedEnumType,
    Ghost(position): Ghost<int>,
    pointer_bytes: u32,
) -> (found: Option<PlaceStorage>)
    requires
        measurable(*ty, pointer_bytes),
        start == plan_start(
            named_prefix(*cell, pointer_bytes),
            position,
            cell.layout.pack as nat,
            pointer_bytes,
        ),
    ensures
        match prefix_storage(storage@, *cell, position, at as nat, *ty, pointer_bytes) {
            Some(next) => found is Some && found->0@ == next,
            None => found is None,
        },
{
    match storage {
        PlaceStorage::Values(values) => {
            let len: usize = leaves_of(ty, pointer_bytes).len();
            part_of(&values, start, len)
        },
        other => shift(other, at),
    }
}

impl Lowering {
    fn resolve_root(&mut self, frame: &Frame, root: &MirPlaceRoot) -> (found: Option<
        (PlaceStorage, ResolvedType),
    >)
        requires
            match *root {
                MirPlaceRoot::Expr(expr) => node_fits(*expr, frame.pb()) && measurable(
                    expr.ty,
                    frame.pb(),
                ),
                _ => true,
            },
        ensures
            match root_resolved(frame@, *root, old(self)@) {
                Some(p) => {
                    &&& found is Some
                    &&& (found->0).0@ == p.storage
                    &&& (found->0).1 == p.ty
                    &&& final(self)@ == p.state
                },
                None => found is None,
            },
        decreases root, 0int,
    {
        let pb: u32 = frame.target.pointer_bytes();
        match root {
            MirPlaceRoot::Local { id, ty } => {
                let index: usize = id.0 as usize;
                if index < frame.arg_count {
                    if index < frame.local_args.len() {
                        let values: Vec<Value> = copy_values(&frame.local_args[index]);
                        Some((PlaceStorage::Values(values), ty.clone()))
                    } else {
                        None
                    }
                } else if index < frame.local_offsets.len() {
                    Some(
                        (
                            PlaceStorage::Memory {
                                base: frame.frame_slot,
                                offset: frame.local_offsets[index],
                            },
                            ty.clone(),
                        ),
                    )
                } else {
                    None
                }
            },
            MirPlaceRoot::Function(_) => None,
            MirPlaceRoot::Global { id, ty } => if is_declared(&frame.globals, *id) {
                let base: Value = pointer_to(Operand::Global(*id));
                Some((PlaceStorage::Memory { base, offset: 0 }, ty.clone()))
            } else {
                None
            },
            MirPlaceRoot::Expr(expr) => match self.process_expr(frame, expr) {
                Some(values) => match self.spill(&values, &expr.ty, SlotUse::Tmp, pb) {
                    Some(storage) => Some((storage, expr.ty.clone())),
                    None => None,
                },
                None => None,
            },
        }
    }

    fn project(
        &mut self,
        frame: &Frame,
        storage: PlaceStorage,
        ty: &ResolvedType,
        projection: &MirProjection,
    ) -> (found: Option<(PlaceStorage, ResolvedType)>)
        requires
            measurable(*ty, frame.pb()),
            projection_fits(*projection, frame.pb()),
        ensures
            match projected(
                frame@,
                PlaceState { state: old(self)@, storage: storage@, ty: *ty },
                *projection,
            ) {
                Some(p) => {
                    &&& found is Some
                    &&& (found->0).0@ == p.storage
                    &&& (found->0).1 == p.ty
                    &&& measurable(p.ty, frame.pb())
                    &&& final(self)@ == p.state
                },
                None => found is None,
            },
        decreases projection, 0int,
    {
        let pb: u32 = frame.target.pointer_bytes();
        proof {
            lemma_enum_measurable(ty, pb);
            lemma_simple_measurable(pb);
        }
        match projection {
            MirProjection::FieldAccess { index, ty: next } => match ty {
                ResolvedType::Struct(cell) => {
                    if *index >= cell.fields.len() {
                        return None;
                    }
                    match field_of(storage, cell, *index, pb) {
                        Some(part) => Some((part, next.clone())),
                        None => None,
                    }
                },
                _ => None,
            },
            MirProjection::UnionField { ty: next } => match self.to_memory(storage, ty, pb) {
                Some(part) => Some((part, next.clone())),
                None => None,
            },
            MirProjection::Deref { ty: next } => {
                let found: Option<Vec<Value>> = self.load_aligned(&storage, ty, pb);
                match pointer_in(&found) {
                    Some(base) => Some((PlaceStorage::Memory { base, offset: 0 }, next.clone())),
                    None => None,
                }
            },
            MirProjection::Index { index_expr, item_type } => {
                let base: Value = match self.base_of_elements(&storage, ty, pb) {
                    Some(base) => base,
                    None => {
                        return None;
                    },
                };
                let index: Value = match self.process_expr(frame, index_expr) {
                    Some(values) => if values.len() > 0 {
                        values[0]
                    } else {
                        return None;
                    },
                    None => {
                        return None;
                    },
                };
                match self.element_at(base, index, total_bytes(item_type, pb), pb) {
                    Some(address) => Some(
                        (PlaceStorage::Memory { base: address, offset: 0 }, item_type.clone()),
                    ),
                    None => None,
                }
            },
            MirProjection::EnumTag { ty: next } => match ty {
                ResolvedType::Enum { cell, .. } => match storage {
                    PlaceStorage::Values(values) => {
                        let len: usize = leaves_of(&cell.tag_type, pb).len();
                        match part_of(&values, 0, len) {
                            Some(part) => Some((part, next.clone())),
                            None => None,
                        }
                    },
                    other => Some((other, next.clone())),
                },
                _ => None,
            },
            MirProjection::EnumHeader { index, ty: next } => match ty {
                ResolvedType::Enum { cell, .. } => {
                    if *index >= cell.header.len() {
                        return None;
                    }
                    assert(measurable(cell.header@[*index as int].ty, pb));
                    let at: u32 = named_header_offset(cell, *index, pb);
                    let start: usize = named_header_start(cell, *index, pb);
                    match prefix_of(
                        storage,
                        start,
                        at,
                        &cell.header[*index].ty,
                        cell,
                        Ghost(1 + *index),
                        pb,
                    ) {
                        Some(part) => Some((part, next.clone())),
                        None => None,
                    }
                },
                _ => None,
            },
            MirProjection::EnumDynamicField { index, ty: next } => match ty {
                ResolvedType::Enum { cell, .. } => {
                    if *index >= cell.dynamic_fields.len() {
                        return None;
                    }
                    assert(measurable(cell.dynamic_fields@[*index as int].ty, pb));
                    let at: u32 = named_dynamic_offset(cell, *index, pb);
                    let start: usize = named_dynamic_start(cell, *index, pb);
                    match prefix_of(
                        storage,
                        start,
                        at,
                        &cell.dynamic_fields[*index].ty,
                        cell,
                        Ghost(1 + cell.header@.len() + *index),
                        pb,
                    ) {
                        Some(part) => Some((part, next.clone())),
                        None => None,
                    }
                },
                _ => None,
            },
            MirProjection::EnumBody { variant_index, field_index, ty: next } => match ty {
                ResolvedType::Enum { cell, .. } => {
                    if *variant_index >= cell.variants.len() || *field_index
                        >= cell.variants[*variant_index].fields.len() {
                        return None;
                    }
                    let at: u32 = named_body_offset(cell, *variant_index, *field_index, pb);
                    match shift(storage, at) {
                        Some(part) => Some((part, next.clone())),
                        None => None,
                    }
                },
                _ => None,
            },
            MirProjection::SliceLength => match half(storage, 1, pb) {
                Some(part) => Some((part, ResolvedType::I32)),
                None => None,
            },
            MirProjection::SpecObjectPtr { mutable } => match half(storage, 0, 0) {
                Some(part) => Some(
                    (
                        part,
                        ResolvedType::Pointer {
                            pointee: Rc::new(ResolvedType::U8),
                            mutable: *mutable,
                        },
                    ),
                ),
                None => None,
            },
            MirProjection::SpecObjectVtable => match half(storage, 1, pb) {
                Some(part) => Some(
                    (
                        part,
                        ResolvedType::Pointer {
                            pointee: Rc::new(ResolvedType::U8),
                            mutable: false,
                        },
                    ),
                ),
                None => None,
            },
        }
    }

    /// Where a place's value is, and its type.
    pub fn resolve_place_storage(&mut self, frame: &Frame, place: &MirPlace) -> (found: Option<
        (PlaceStorage, ResolvedType),
    >)
        requires
            place_fits(*place, frame.pb()),
        ensures
            match place_resolved(frame@, *place, old(self)@) {
                Some(p) => {
                    &&& found is Some
                    &&& (found->0).0@ == p.storage
                    &&& (found->0).1 == p.ty
                    &&& measurable(p.ty, frame.pb())
                    &&& final(self)@ == p.state
                },
                None => found is None,
            },
        decreases place, 0int,
    {
        let (mut storage, mut ty) = match self.resolve_root(frame, &place.root) {
            Some(root) => root,
            None => {
                return None;
            },
        };
        let ghost root = PlaceState { state: self@, storage: storage@, ty };
        let projections: &Vec<MirProjection> = &place.projections;
        assert(projections_fit(projections@, frame.pb()));
        let mut i: usize = 0;
        while i < projections.len()
            invariant
                i <= projections@.len(),
                *projections == place.projections,
                projections_fit(projections@, frame.pb()),
                measurable(ty, frame.pb()),
                place_resolved(frame@, *place, old(self)@) == all_projected(
                    frame@,
                    root,
                    projections@,
                    projections@.len(),
                ),
                all_projected(frame@, root, projections@, i as nat) == Some(
                    PlaceState { state: self@, storage: storage@, ty },
                ),
            decreases projections.len() - i,
        {
            assert(projection_fits(projections@[i as int], frame.pb()));
            match self.project(frame, storage, &ty, &projections[i]) {
                Some((next_storage, next_ty)) => {
                    storage = next_storage;
                    ty = next_ty;
                },
                None => {
                    proof {
                        lemma_projecting_stops(
                            frame@,
                            root,
                            projections@,
                            (i + 1) as nat,
                            projections@.len(),
                        );
                    }
                    return None;
                },
            }
            i = i + 1;
        }
        Some((storage, ty))
    }

    /// The value of a place.
    pub fn get_place_value(&mut self, frame: &Frame, place: &MirPlace) -> (values: Option<
        Vec<Value>,
    >)
        requires
            place_fits(*place, frame.pb()),
        ensures
            match place_lowered(frame@, *place, old(self)@) {
                Some(lowered) => {
                    &&& values is Some
                    &&& values->0@ == lowered.values
                    &&& final(self)@ == lowered.state
                },
                None => values is None,
            },
        decreases place, 1int,
    {
        let pb: u32 = frame.target.pointer_bytes();
        if let MirPlaceRoot::Function(id) = &place.root {
            if is_declared(&frame.functions, *id) {
                return Some(one_value(pointer_to(Operand::Function(*id))));
            }
            return None;
        }
        match self.resolve_place_storage(frame, place) {
            Some((storage, ty)) => self.load_scalars(&storage, &ty, place.align, pb),
            None => None,
        }
    }
}

} // verus!
