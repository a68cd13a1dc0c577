//! Places: where a value is, and what leads there.

use crate::codegen::constants::{forward, moved};
use crate::codegen::cranelift::constant::one_value;
use crate::codegen::cranelift::expr::expr_lowered;
use crate::codegen::cranelift::{
    addressed, loaded, pointer_ir, pointer_type, spilled, Arith, Convert, Frame, FrameView, IrType,
    Lowered, Lowering, LoweringView, Op, PlaceStorage, Storage,
};
use crate::codegen::fits::{node_fits, place_fits, projection_fits, projections_fit};
use crate::codegen::mir::{MirPlace, MirPlaceRoot, MirProjection};
use crate::codegen::shared::is_declared;
use crate::layout::{
    body_at, dynamic_at, enum_measurable, field_byte_offset, field_parts, header_at, leaves_of,
    leaves_spec, measurable, named_body_offset, named_dynamic_offset, named_dynamic_start,
    named_header_offset, named_header_start, named_prefix, parts_measurable, plan_offset, plan_start, size_of,
    struct_layout, total_bytes, FieldLayout,
};
use crate::resolved_type::{ResolvedEnumType, ResolvedStructType, ResolvedType};
use std::rc::Rc;
use vstd::prelude::*;

verus! {

/// A place on the way to being resolved: what has been emitted, where the
/// value is, and its type.
pub struct PlaceState {
    pub state: LoweringView,
    pub storage: Storage,
    pub ty: ResolvedType,
}

/// A storage in memory, further along.
pub open spec fn shifted(storage: Storage, by: nat) -> Option<Storage> {
    match storage {
        Storage::Values(_) => None,
        Storage::Slot { slot, offset } => match moved(offset, by) {
            Some(offset) => Some(Storage::Slot { slot, offset }),
            None => None,
        },
        Storage::Address { base, offset } => match moved(offset, by) {
            Some(offset) => Some(Storage::Address { base, offset }),
            None => None,
        },
    }
}

/// Some of the values of an aggregate.
pub open spec fn part(values: Seq<usize>, start: nat, len: nat) -> Option<Storage> {
    if start + len <= values.len() {
        Some(Storage::Values(values.subrange(start as int, (start + len) as int)))
    } else {
        None
    }
}

/// The storage of a struct's field.
pub open spec fn field_storage(
    storage: Storage,
    cell: ResolvedStructType,
    index: int,
    pointer_bytes: u32,
) -> Option<Storage> {
    let parts = field_parts(cell.fields@, pointer_bytes);
    let pack = cell.layout.pack as nat;
    match storage {
        Storage::Values(values) => part(
            values,
            plan_start(parts, index, pack, pointer_bytes),
            leaves_spec(cell.fields@[index].ty, pointer_bytes).len(),
        ),
        _ => shifted(storage, plan_offset(parts, index, pack, pointer_bytes)),
    }
}

/// The storage of a field in an enum's prefix: its position there, where it
/// lies, and its type.
pub open spec fn prefix_storage(
    storage: Storage,
    cell: ResolvedEnumType,
    position: int,
    at: nat,
    ty: ResolvedType,
    pointer_bytes: u32,
) -> Option<Storage> {
    match storage {
        Storage::Values(values) => part(
            values,
            plan_start(
                named_prefix(cell, pointer_bytes),
                position,
                cell.layout.pack as nat,
                pointer_bytes,
            ),
            leaves_spec(ty, pointer_bytes).len(),
        ),
        _ => shifted(storage, at),
    }
}

/// One of two values, or what lies `by` bytes along.
pub open spec fn half_storage(storage: Storage, index: int, by: nat) -> Option<Storage> {
    match storage {
        Storage::Values(values) => if index < values.len() {
            Some(Storage::Values(seq![values[index]]))
        } else {
            None
        },
        _ => shifted(storage, by),
    }
}

/// A storage that can be addressed: what is in values is spilled.
pub open spec fn in_memory(
    s: LoweringView,
    storage: Storage,
    ty: ResolvedType,
    pointer_bytes: u32,
) -> Option<(LoweringView, Storage)> {
    match storage {
        Storage::Values(values) => spilled(s, values, ty, pointer_bytes),
        _ => Some((s, storage)),
    }
}

/// A value widened to a pointer's width, where it has another type.
pub open spec fn pointer_wide(s: LoweringView, value: usize, pointer_bytes: u32) -> Option<
    Lowered,
> {
    match s.type_of(value) {
        Some(ty) => if ty == pointer_ir(pointer_bytes) {
            Some(Lowered { state: s, values: seq![value] })
        } else {
            Some(
                s.define(
                    Op::Convert { op: Convert::Uextend, value },
                    pointer_ir(pointer_bytes),
                ),
            )
        },
        None => None,
    }
}

/// The address of an element: a base, an index, and the size of an element.
pub open spec fn element_address(
    s: LoweringView,
    base: usize,
    index: usize,
    size: nat,
    pointer_bytes: u32,
) -> Option<Lowered> {
    let ptr = pointer_ir(pointer_bytes);
    match pointer_wide(s, base, pointer_bytes) {
        Some(wide_base) => match pointer_wide(wide_base.state, index, pointer_bytes) {
            Some(wide_index) => {
                let scale = wide_index.state.define(Op::Iconst(size as i64), ptr);
                let along = scale.state.define(
                    Op::Binary {
                        op: Arith::Imul,
                        left: wide_index.values[0],
                        right: scale.values[0],
                    },
                    ptr,
                );
                Some(
                    along.state.define(
                        Op::Binary {
                            op: Arith::Iadd,
                            left: wide_base.values[0],
                            right: along.values[0],
                        },
                        ptr,
                    ),
                )
            },
            None => None,
        },
        None => None,
    }
}

/// The address where the elements of a sequence start: where an array lies, or
/// the pointer that another sequence holds.
pub open spec fn elements_base(
    s: LoweringView,
    storage: Storage,
    ty: ResolvedType,
    pointer_bytes: u32,
) -> Option<Lowered> {
    match ty {
        ResolvedType::SizedArray(_, _) => addressed(s, storage, pointer_bytes),
        ResolvedType::Array(_, _) | ResolvedType::Slice { .. } | ResolvedType::Str { .. } => {
            match loaded(s, storage, ty, pointer_bytes) {
                Some(found) => if found.values.len() > 0 {
                    Some(Lowered { values: seq![found.values[0]], ..found })
                } else {
                    None
                },
                None => None,
            }
        },
        _ => None,
    }
}

/// Where a place starts.
pub open spec fn root_resolved(frame: FrameView, root: MirPlaceRoot, s: LoweringView) -> Option<
    PlaceState,
>
    decreases root, 0int, 0nat,
{
    match root {
        MirPlaceRoot::Local { id, ty } => if id.0 < frame.arg_count {
            if id.0 < frame.local_args.len() {
                Some(
                    PlaceState {
                        state: s,
                        storage: Storage::Values(frame.local_args[id.0 as int]),
                        ty,
                    },
                )
            } else {
                None
            }
        } else if id.0 < frame.local_offsets.len() {
            Some(
                PlaceState {
                    state: s,
                    storage: Storage::Slot {
                        slot: frame.frame_slot,
                        offset: frame.local_offsets[id.0 as int],
                    },
                    ty,
                },
            )
        } else {
            None
        },
        MirPlaceRoot::Function(_) => None,
        MirPlaceRoot::Global { id, ty } => if frame.globals.contains(id) {
            let address = s.define(Op::GlobalAddr(id), pointer_ir(frame.pb()));
            Some(
                PlaceState {
                    state: address.state,
                    storage: Storage::Address { base: address.values[0], offset: 0 },
                    ty,
                },
            )
        } else {
            None
        },
        MirPlaceRoot::Expr(expr) => match expr_lowered(frame, *expr, s) {
            Some(lowered) => match spilled(lowered.state, lowered.values, expr.ty, frame.pb()) {
                Some((state, storage)) => Some(PlaceState { state, storage, ty: expr.ty }),
                None => None,
            },
            None => None,
        },
    }
}

/// One step further.
pub open spec fn projected(frame: FrameView, p: PlaceState, projection: MirProjection) -> Option<
    PlaceState,
>
    decreases projection, 0int, 0nat,
{
    let pb = frame.pb();
    match projection {
        MirProjection::FieldAccess { index, ty } => match p.ty {
            ResolvedType::Struct(cell) => if index < cell.fields@.len() {
                match field_storage(p.storage, *cell, index as int, pb) {
                    Some(storage) => Some(PlaceState { storage, ty, ..p }),
                    None => None,
                }
            } else {
                None
            },
            _ => None,
        },
        MirProjection::UnionField { ty } => match in_memory(p.state, p.storage, p.ty, pb) {
            Some((state, storage)) => Some(PlaceState { state, storage, ty }),
            None => None,
        },
        MirProjection::Deref { ty } => match loaded(p.state, p.storage, p.ty, pb) {
            Some(found) => if found.values.len() > 0 {
                Some(
                    PlaceState {
                        state: found.state,
                        storage: Storage::Address { base: found.values[0], offset: 0 },
                        ty,
                    },
                )
            } else {
                None
            },
            None => None,
        },
        MirProjection::Index { index_expr, item_type } => match elements_base(
            p.state,
            p.storage,
            p.ty,
            pb,
        ) {
            Some(base) => match expr_lowered(frame, *index_expr, base.state) {
                Some(index) => if index.values.len() > 0 {
                    match element_address(
                        index.state,
                        base.values[0],
                        index.values[0],
                        size_of(item_type, pb),
                        pb,
                    ) {
                        Some(address) => Some(
                            PlaceState {
                                state: address.state,
                                storage: Storage::Address { base: address.values[0], offset: 0 },
                                ty: item_type,
                            },
                        ),
                        None => None,
                    }
                } else {
                    None
                },
                None => None,
            },
            None => None,
        },
        MirProjection::EnumTag { ty } => match p.ty {
            ResolvedType::Enum { cell, .. } => match p.storage {
                Storage::Values(values) => match part(
                    values,
                    0,
                    leaves_spec(cell.tag_type, pb).len(),
                ) {
                    Some(storage) => Some(PlaceState { storage, ty, ..p }),
                    None => None,
                },
                _ => Some(PlaceState { ty, ..p }),
            },
            _ => None,
        },
        MirProjection::EnumHeader { index, ty } => match p.ty {
            ResolvedType::Enum { cell, .. } => if index < cell.header@.len() {
                match prefix_storage(
                    p.storage,
                    *cell,
                    1 + index,
                    header_at(*cell, index as int, pb),
                    cell.header@[index as int].ty,
                    pb,
                ) {
                    Some(storage) => Some(PlaceState { storage, ty, ..p }),
                    None => None,
                }
            } else {
                None
            },
            _ => None,
        },
        MirProjection::EnumDynamicField { index, ty } => match p.ty {
            ResolvedType::Enum { cell, .. } => if index < cell.dynamic_fields@.len() {
                match prefix_storage(
                    p.storage,
                    *cell,
                    1 + cell.header@.len() + index,
                    dynamic_at(*cell, index as int, pb),
                    cell.dynamic_fields@[index as int].ty,
                    pb,
                ) {
                    Some(storage) => Some(PlaceState { storage, ty, ..p }),
                    None => None,
                }
            } else {
                None
            },
            _ => None,
        },
        MirProjection::EnumBody { variant_index, field_index, ty } => match p.ty {
            ResolvedType::Enum { cell, .. } => if variant_index < cell.variants@.len()
                && field_index < cell.variants@[variant_index as int].fields@.len() {
                match in_memory(p.state, p.storage, p.ty, pb) {
                    Some((state, storage)) => match shifted(
                        storage,
                        body_at(*cell, variant_index as int, field_index as int, pb),
                    ) {
                        Some(storage) => Some(PlaceState { state, storage, ty }),
                        None => None,
                    },
                    None => None,
                }
            } else {
                None
            },
            _ => None,
        },
        MirProjection::SliceLength => match half_storage(p.storage, 1, pb as nat) {
            Some(storage) => Some(PlaceState { storage, ty: ResolvedType::I32, ..p }),
            None => None,
        },
        MirProjection::SpecObjectPtr { mutable } => match half_storage(p.storage, 0, 0) {
            Some(storage) => Some(
                PlaceState {
                    storage,
                    ty: ResolvedType::Pointer { pointee: Rc::new(ResolvedType::U8), mutable },
                    ..p
                },
            ),
            None => None,
        },
        MirProjection::SpecObjectVtable => match half_storage(p.storage, 1, pb as nat) {
            Some(storage) => Some(
                PlaceState {
                    storage,
                    ty: ResolvedType::Pointer {
                        pointee: Rc::new(ResolvedType::U8),
                        mutable: false,
                    },
                    ..p
                },
            ),
            None => None,
        },
    }
}

/// The first `n` steps, one after the other.
pub open spec fn all_projected(
    frame: FrameView,
    p: PlaceState,
    projections: Seq<MirProjection>,
    n: nat,
) -> Option<PlaceState>
    decreases projections, 0int, n,
{
    if n == 0 || n > projections.len() {
        Some(p)
    } else {
        match all_projected(frame, p, projections, (n - 1) as nat) {
            Some(before) => projected(frame, before, projections[n - 1]),
            None => None,
        }
    }
}

/// Where a place's value is.
pub open spec fn place_resolved(frame: FrameView, place: MirPlace, s: LoweringView) -> Option<
    PlaceState,
>
    decreases place, 0int, 0nat,
{
    match root_resolved(frame, place.root, s) {
        Some(root) => all_projected(
            frame,
            root,
            place.projections@,
            place.projections@.len(),
        ),
        None => None,
    }
}

/// The value of a place. A function is its address: it is code, not data.
pub open spec fn place_lowered(frame: FrameView, place: MirPlace, s: LoweringView) -> Option<Lowered>
    decreases place, 1int, 0nat,
{
    match place.root {
        MirPlaceRoot::Function(id) => if frame.functions.contains(id) {
            Some(s.define(Op::FuncAddr(id), pointer_ir(frame.pb())))
        } else {
            None
        },
        _ => match place_resolved(frame, place, s) {
            Some(found) => loaded(found.state, found.storage, found.ty, frame.pb()),
            None => None,
        },
    }
}

proof fn lemma_projecting_stops(
    frame: FrameView,
    p: PlaceState,
    projections: Seq<MirProjection>,
    n: nat,
    m: nat,
)
    requires
        n <= m <= projections.len(),
        all_projected(frame, p, projections, n) is None,
    ensures
        all_projected(frame, p, projections, m) is None,
    decreases m,
{
    if n < m {
        lemma_projecting_stops(frame, p, projections, n, (m - 1) as nat);
    }
}

fn shift(storage: PlaceStorage, by: u32) -> (found: Option<PlaceStorage>)
    ensures
        match shifted(storage@, by as nat) {
            Some(next) => found is Some && found->0@ == next,
            None => found is None,
        },
{
    match storage {
        PlaceStorage::Values(_) => None,
        PlaceStorage::Slot { slot, offset } => match forward(offset, by) {
            Some(offset) => Some(PlaceStorage::Slot { slot, offset }),
            None => None,
        },
        PlaceStorage::Address { base, offset } => match forward(offset, by) {
            Some(offset) => Some(PlaceStorage::Address { base, offset }),
            None => None,
        },
    }
}

fn part_of(values: &Vec<usize>, start: usize, len: usize) -> (found: Option<PlaceStorage>)
    ensures
        match part(values@, start as nat, len as nat) {
            Some(next) => found is Some && found->0@ == next,
            None => found is None,
        },
{
    if start > values.len() || len > values.len() - start {
        return None;
    }
    let mut some: Vec<usize> = Vec::new();
    let mut i: usize = 0;
    while i < len
        invariant
            i <= len,
            start + len <= values.len(),
            some@ =~= values@.subrange(start as int, (start + i) as int),
        decreases len - i,
    {
        some.push(values[start + i]);
        i = i + 1;
    }
    Some(PlaceStorage::Values(some))
}

fn half(storage: PlaceStorage, index: usize, by: u32) -> (found: Option<PlaceStorage>)
    ensures
        match half_storage(storage@, index as int, by as nat) {
            Some(next) => found is Some && found->0@ == next,
            None => found is None,
        },
{
    match storage {
        PlaceStorage::Values(values) => if index < values.len() {
            Some(PlaceStorage::Values(one_value(values[index])))
        } else {
            None
        },
        other => shift(other, by),
    }
}

fn field_of(storage: PlaceStorage, cell: &ResolvedStructType, index: usize, pointer_bytes: u32) -> (
    found: Option<PlaceStorage>)
    requires
        measurable(ResolvedType::Struct(Rc::new(*cell)), pointer_bytes),
        index < cell.fields@.len(),
    ensures
        match field_storage(storage@, *cell, index as int, pointer_bytes) {
            Some(next) => found is Some && found->0@ == next,
            None => found is None,
        },
{
    match storage {
        PlaceStorage::Values(values) => {
            let layout: FieldLayout = struct_layout(cell, pointer_bytes);
            proof {
                crate::layout::lemma_field_parts(cell.fields@, pointer_bytes);
                assert(parts_measurable(
                    ResolvedType::Struct(Rc::new(*cell)),
                    pointer_bytes,
                ));
                assert(crate::layout::fields_measurable(cell.fields@, pointer_bytes));
                assert(measurable(cell.fields@[index as int].ty, pointer_bytes));
            }
            let len: usize = leaves_of(&cell.fields[index].ty, pointer_bytes).len();
            part_of(&values, layout.leaf_starts[index], len)
        },
        other => shift(other, field_byte_offset(cell, index, pointer_bytes)),
    }
}

impl Lowering {
    fn to_memory(&mut self, storage: PlaceStorage, ty: &ResolvedType, pointer_bytes: u32) -> (found:
        Option<PlaceStorage>)
        requires
            measurable(*ty, pointer_bytes),
        ensures
            match in_memory(old(self)@, storage@, *ty, pointer_bytes) {
                Some((after, next)) => {
                    &&& found is Some
                    &&& found->0@ == next
                    &&& final(self)@ == after
                },
                None => found is None,
            },
    {
        match storage {
            PlaceStorage::Values(values) => self.spill(&values, ty, pointer_bytes),
            other => Some(other),
        }
    }

    /// Widens a value to a pointer's width.
    pub fn widen_to_pointer(&mut self, value: usize, pointer_bytes: u32) -> (wide: Option<usize>)
        ensures
            match pointer_wide(old(self)@, value, pointer_bytes) {
                Some(lowered) => {
                    &&& wide is Some
                    &&& lowered.values == seq![wide->0]
                    &&& final(self)@ == lowered.state
                },
                None => wide is None,
            },
    {
        match self.value_type(value) {
            Some(ty) => if ty == pointer_type(pointer_bytes) {
                Some(value)
            } else {
                let wide: usize = self.define(
                    Op::Convert { op: Convert::Uextend, value },
                    pointer_type(pointer_bytes),
                );
                Some(wide)
            },
            None => None,
        }
    }

    fn element_at(&mut self, base: usize, index: usize, size: u32, pointer_bytes: u32) -> (address:
        Option<usize>)
        ensures
            match element_address(old(self)@, base, index, size as nat, pointer_bytes) {
                Some(lowered) => {
                    &&& address is Some
                    &&& lowered.values == seq![address->0]
                    &&& final(self)@ == lowered.state
                },
                None => address is None,
            },
    {
        let ptr: IrType = pointer_type(pointer_bytes);
        let wide_base: usize = match self.widen_to_pointer(base, pointer_bytes) {
            Some(wide) => wide,
            None => {
                return None;
            },
        };
        let wide_index: usize = match self.widen_to_pointer(index, pointer_bytes) {
            Some(wide) => wide,
            None => {
                return None;
            },
        };
        let scale: usize = self.define(Op::Iconst(size as i64), ptr);
        let along: usize = self.define(
            Op::Binary { op: Arith::Imul, left: wide_index, right: scale },
            ptr,
        );
        let address: usize = self.define(
            Op::Binary { op: Arith::Iadd, left: wide_base, right: along },
            ptr,
        );
        Some(address)
    }

    fn base_of_elements(
        &mut self,
        storage: &PlaceStorage,
        ty: &ResolvedType,
        pointer_bytes: u32,
    ) -> (base: Option<usize>)
        requires
            measurable(*ty, pointer_bytes),
        ensures
            match elements_base(old(self)@, storage@, *ty, pointer_bytes) {
                Some(lowered) => {
                    &&& base is Some
                    &&& lowered.values == seq![base->0]
                    &&& final(self)@ == lowered.state
                },
                None => base is None,
            },
    {
        match ty {
            ResolvedType::SizedArray(_, _) => self.place_storage_address(storage, pointer_bytes),
            ResolvedType::Array(_, _) | ResolvedType::Slice { .. } | ResolvedType::Str { .. } => {
                match self.load_scalars(storage, ty, pointer_bytes) {
                    Some(values) => if values.len() > 0 {
                        Some(values[0])
                    } else {
                        None
                    },
                    None => None,
                }
            },
            _ => None,
        }
    }
}

proof fn lemma_enum_measurable(ty: &ResolvedType, pointer_bytes: u32)
    requires
        measurable(*ty, pointer_bytes),
    ensures
        match *ty {
            ResolvedType::Enum { cell, .. } => {
                &&& enum_measurable(*cell, pointer_bytes)
                &&& measurable(cell.tag_type, pointer_bytes)
                &&& crate::layout::fields_measurable(cell.header@, pointer_bytes)
                &&& crate::layout::fields_measurable(cell.dynamic_fields@, pointer_bytes)
            },
            _ => true,
        },
{
    assert(parts_measurable(*ty, pointer_bytes));
    match ty {
        ResolvedType::Enum { cell, .. } => {
            assert(parts_measurable(
                ResolvedType::Enum { cell: *cell, variant: None },
                pointer_bytes,
            ));
        },
        _ => {},
    }
}

proof fn lemma_simple_measurable(pointer_bytes: u32)
    requires
        pointer_bytes <= 8,
    ensures
        measurable(ResolvedType::I32, pointer_bytes),
        forall|mutable: bool|
            #[trigger] measurable(
                ResolvedType::Pointer { pointee: Rc::new(ResolvedType::U8), mutable },
                pointer_bytes,
            ),
{
    let one = seq![crate::layout::Leaf::I32];
    assert(one.drop_last() =~= Seq::empty());
    assert(crate::layout::leaf_bytes(Seq::empty(), pointer_bytes) == 0);
    assert(crate::layout::leaf_bytes(one, pointer_bytes) == 4);
    assert(parts_measurable(ResolvedType::I32, pointer_bytes));
    let pointer = seq![crate::layout::Leaf::Ptr];
    assert(pointer.drop_last() =~= Seq::empty());
    assert(crate::layout::leaf_bytes(pointer, pointer_bytes) == pointer_bytes);
    assert forall|mutable: bool|
        #[trigger] measurable(
            ResolvedType::Pointer { pointee: Rc::new(ResolvedType::U8), mutable },
            pointer_bytes,
        ) by {
        assert(parts_measurable(
            ResolvedType::Pointer { pointee: Rc::new(ResolvedType::U8), mutable },
            pointer_bytes,
        ));
    }
}

fn prefix_of(
    storage: PlaceStorage,
    start: usize,
    at: u32,
    ty: &ResolvedType,
    cell: &ResolvedEnumType,
    Ghost(position): Ghost<int>,
    pointer_bytes: u32,
) -> (found: Option<PlaceStorage>)
    requires
        measurable(*ty, pointer_bytes),
        start == plan_start(
            named_prefix(*cell, pointer_bytes),
            position,
            cell.layout.pack as nat,
            pointer_bytes,
        ),
    ensures
        match prefix_storage(storage@, *cell, position, at as nat, *ty, pointer_bytes) {
            Some(next) => found is Some && found->0@ == next,
            None => found is None,
        },
{
    match storage {
        PlaceStorage::Values(values) => {
            let len: usize = leaves_of(ty, pointer_bytes).len();
            part_of(&values, start, len)
        },
        other => shift(other, at),
    }
}

impl Lowering {
    fn resolve_root(&mut self, frame: &Frame, root: &MirPlaceRoot) -> (found: Option<
        (PlaceStorage, ResolvedType),
    >)
        requires
            match *root {
                MirPlaceRoot::Expr(expr) => node_fits(*expr, frame.pb()) && measurable(
                    expr.ty,
                    frame.pb(),
                ),
                _ => true,
            },
        ensures
            match root_resolved(frame@, *root, old(self)@) {
                Some(p) => {
                    &&& found is Some
                    &&& (found->0).0@ == p.storage
                    &&& (found->0).1 == p.ty
                    &&& final(self)@ == p.state
                },
                None => found is None,
            },
        decreases root, 0int,
    {
        let pb: u32 = frame.target.pointer_bytes();
        match root {
            MirPlaceRoot::Local { id, ty } => {
                let index: usize = id.0 as usize;
                if index < frame.arg_count {
                    if index < frame.local_args.len() {
                        let values: Vec<usize> = crate::codegen::cranelift::copy_values(
                            &frame.local_args[index],
                        );
                        Some((PlaceStorage::Values(values), ty.clone()))
                    } else {
                        None
                    }
                } else if index < frame.local_offsets.len() {
                    Some(
                        (
                            PlaceStorage::Slot {
                                slot: frame.frame_slot,
                                offset: frame.local_offsets[index],
                            },
                            ty.clone(),
                        ),
                    )
                } else {
                    None
                }
            },
            MirPlaceRoot::Function(_) => None,
            MirPlaceRoot::Global { id, ty } => if is_declared(&frame.globals, *id) {
                let base: usize = self.define(Op::GlobalAddr(*id), pointer_type(pb));
                Some((PlaceStorage::Address { base, offset: 0 }, ty.clone()))
            } else {
                None
            },
            MirPlaceRoot::Expr(expr) => match self.process_expr(frame, expr) {
                Some(values) => match self.spill(&values, &expr.ty, pb) {
                    Some(storage) => Some((storage, expr.ty.clone())),
                    None => None,
                },
                None => None,
            },
        }
    }

    fn project(
        &mut self,
        frame: &Frame,
        storage: PlaceStorage,
        ty: &ResolvedType,
        projection: &MirProjection,
    ) -> (found: Option<(PlaceStorage, ResolvedType)>)
        requires
            measurable(*ty, frame.pb()),
            projection_fits(*projection, frame.pb()),
        ensures
            match projected(
                frame@,
                PlaceState { state: old(self)@, storage: storage@, ty: *ty },
                *projection,
            ) {
                Some(p) => {
                    &&& found is Some
                    &&& (found->0).0@ == p.storage
                    &&& (found->0).1 == p.ty
                    &&& measurable(p.ty, frame.pb())
                    &&& final(self)@ == p.state
                },
                None => found is None,
            },
        decreases projection, 0int,
    {
        let pb: u32 = frame.target.pointer_bytes();
        proof {
            lemma_enum_measurable(ty, pb);
            lemma_simple_measurable(pb);
        }
        match projection {
            MirProjection::FieldAccess { index, ty: next } => match ty {
                ResolvedType::Struct(cell) => {
                    if *index >= cell.fields.len() {
                        return None;
                    }
                    match field_of(storage, cell, *index, pb) {
                        Some(part) => Some((part, next.clone())),
                        None => None,
                    }
                },
                _ => None,
            },
            MirProjection::UnionField { ty: next } => match self.to_memory(storage, ty, pb) {
                Some(part) => Some((part, next.clone())),
                None => None,
            },
            MirProjection::Deref { ty: next } => match self.load_scalars(&storage, ty, pb) {
                Some(values) => if values.len() > 0 {
                    Some((PlaceStorage::Address { base: values[0], offset: 0 }, next.clone()))
                } else {
                    None
                },
                None => None,
            },
            MirProjection::Index { index_expr, item_type } => {
                let base: usize = match self.base_of_elements(&storage, ty, pb) {
                    Some(base) => base,
                    None => {
                        return None;
                    },
                };
                let index: usize = match self.process_expr(frame, index_expr) {
                    Some(values) => if values.len() > 0 {
                        values[0]
                    } else {
                        return None;
                    },
                    None => {
                        return None;
                    },
                };
                match self.element_at(base, index, total_bytes(item_type, pb), pb) {
                    Some(address) => Some(
                        (PlaceStorage::Address { base: address, offset: 0 }, item_type.clone()),
                    ),
                    None => None,
                }
            },
            MirProjection::EnumTag { ty: next } => match ty {
                ResolvedType::Enum { cell, .. } => match storage {
                    PlaceStorage::Values(values) => {
                        let len: usize = leaves_of(&cell.tag_type, pb).len();
                        match part_of(&values, 0, len) {
                            Some(part) => Some((part, next.clone())),
                            None => None,
                        }
                    },
                    other => Some((other, next.clone())),
                },
                _ => None,
            },
            MirProjection::EnumHeader { index, ty: next } => match ty {
                ResolvedType::Enum { cell, .. } => {
                    if *index >= cell.header.len() {
                        return None;
                    }
                    assert(measurable(cell.header@[*index as int].ty, pb));
                    let at: u32 = named_header_offset(cell, *index, pb);
                    let start: usize = named_header_start(cell, *index, pb);
                    match prefix_of(
                        storage,
                        start,
                        at,
                        &cell.header[*index].ty,
                        cell,
                        Ghost(1 + *index),
                        pb,
                    ) {
                        Some(part) => Some((part, next.clone())),
                        None => None,
                    }
                },
                _ => None,
            },
            MirProjection::EnumDynamicField { index, ty: next } => match ty {
                ResolvedType::Enum { cell, .. } => {
                    if *index >= cell.dynamic_fields.len() {
                        return None;
                    }
                    assert(measurable(cell.dynamic_fields@[*index as int].ty, pb));
                    let at: u32 = named_dynamic_offset(cell, *index, pb);
                    let start: usize = named_dynamic_start(cell, *index, pb);
                    match prefix_of(
                        storage,
                        start,
                        at,
                        &cell.dynamic_fields[*index].ty,
                        cell,
                        Ghost(1 + cell.header@.len() + *index),
                        pb,
                    ) {
                        Some(part) => Some((part, next.clone())),
                        None => None,
                    }
                },
                _ => None,
            },
            MirProjection::EnumBody { variant_index, field_index, ty: next } => match ty {
                ResolvedType::Enum { cell, .. } => {
                    if *variant_index >= cell.variants.len() || *field_index
                        >= cell.variants[*variant_index].fields.len() {
                        return None;
                    }
                    match self.to_memory(storage, ty, pb) {
                        Some(whole) => {
                            let at: u32 = named_body_offset(
                                cell,
                                *variant_index,
                                *field_index,
                                pb,
                            );
                            match shift(whole, at) {
                                Some(part) => Some((part, next.clone())),
                                None => None,
                            }
                        },
                        None => None,
                    }
                },
                _ => None,
            },
            MirProjection::SliceLength => match half(storage, 1, pb) {
                Some(part) => Some((part, ResolvedType::I32)),
                None => None,
            },
            MirProjection::SpecObjectPtr { mutable } => match half(storage, 0, 0) {
                Some(part) => Some(
                    (
                        part,
                        ResolvedType::Pointer {
                            pointee: Rc::new(ResolvedType::U8),
                            mutable: *mutable,
                        },
                    ),
                ),
                None => None,
            },
            MirProjection::SpecObjectVtable => match half(storage, 1, pb) {
                Some(part) => Some(
                    (
                        part,
                        ResolvedType::Pointer {
                            pointee: Rc::new(ResolvedType::U8),
                            mutable: false,
                        },
                    ),
                ),
                None => None,
            },
        }
    }

    /// Where a place's value is, and its type.
    pub fn resolve_place_storage(&mut self, frame: &Frame, place: &MirPlace) -> (found: Option<
        (PlaceStorage, ResolvedType),
    >)
        requires
            place_fits(*place, frame.pb()),
        ensures
            match place_resolved(frame@, *place, old(self)@) {
                Some(p) => {
                    &&& found is Some
                    &&& (found->0).0@ == p.storage
                    &&& (found->0).1 == p.ty
                    &&& measurable(p.ty, frame.pb())
                    &&& final(self)@ == p.state
                },
                None => found is None,
            },
        decreases place, 0int,
    {
        let (mut storage, mut ty) = match self.resolve_root(frame, &place.root) {
            Some(root) => root,
            None => {
                return None;
            },
        };
        let ghost root = PlaceState { state: self@, storage: storage@, ty };
        let projections: &Vec<MirProjection> = &place.projections;
        assert(projections_fit(projections@, frame.pb()));
        let mut i: usize = 0;
        while i < projections.len()
            invariant
                i <= projections@.len(),
                *projections == place.projections,
                projections_fit(projections@, frame.pb()),
                measurable(ty, frame.pb()),
                place_resolved(frame@, *place, old(self)@) == all_projected(
                    frame@,
                    root,
                    projections@,
                    projections@.len(),
                ),
                all_projected(frame@, root, projections@, i as nat) == Some(
                    PlaceState { state: self@, storage: storage@, ty },
                ),
            decreases projections.len() - i,
        {
            assert(projection_fits(projections@[i as int], frame.pb()));
            match self.project(frame, storage, &ty, &projections[i]) {
                Some((next_storage, next_ty)) => {
                    storage = next_storage;
                    ty = next_ty;
                },
                None => {
                    proof {
                        lemma_projecting_stops(
                            frame@,
                            root,
                            projections@,
                            (i + 1) as nat,
                            projections@.len(),
                        );
                    }
                    return None;
                },
            }
            i = i + 1;
        }
        Some((storage, ty))
    }

    /// The value of a place.
    pub fn get_place_value(&mut self, frame: &Frame, place: &MirPlace) -> (values: Option<
        Vec<usize>,
    >)
        requires
            place_fits(*place, frame.pb()),
        ensures
            match place_lowered(frame@, *place, old(self)@) {
                Some(lowered) => {
                    &&& values is Some
                    &&& values->0@ == lowered.values
                    &&& final(self)@ == lowered.state
                },
                None => values is None,
            },
        decreases place, 1int,
    {
        let pb: u32 = frame.target.pointer_bytes();
        if let MirPlaceRoot::Function(id) = &place.root {
            if is_declared(&frame.functions, *id) {
                let value: usize = self.define(Op::FuncAddr(*id), pointer_type(pb));
                return Some(one_value(value));
            }
            return None;
        }
        match self.resolve_place_storage(frame, place) {
            Some((storage, ty)) => self.load_scalars(&storage, &ty, pb),
            None => None,
        }
    }
}

} // verus!
