//! Where the steps of a place lead, and what is part of a sequence.

use crate::checked::CastKind;
use crate::codegen::cranelift::{
    leaves_loaded, leaves_width, loaded, pointer_ir, Arith, FrameView, IrType, Lowered,
    LoweringView, Op, Storage,
};
use crate::codegen::cranelift::evaluation::{bits_in, held, is_floating, World};
use crate::codegen::cranelift::expr::{bound_lowered, converted, expr_lowered, first_of, slice_of};
use crate::codegen::cranelift::expression_laws::{
    gives, gives_two, lemma_both, lemma_nothing, lemma_then, outcome, runs,
};
use crate::codegen::cranelift::memory_laws::{
    address, law_addresses, law_element_addresses, lemma_loaded, lemma_scaled_sum, lemma_widened,
    reachable,
};
use crate::codegen::cranelift::place::{
    element_address, elements_base, field_storage, pointer_wide, projected, shifted, PlaceState,
};
use crate::codegen::machine::{fits, lemma_wrap_fits, lemma_wrap_small, read, value, wrap, Machine};
use crate::codegen::mir::{MirProjection, MirSlice};
use crate::layout::{
    body_at, dynamic_at, field_parts, header_at, leaf_bytes, leaves_spec, plan_offset, plan_start,
    size_of, Leaf,
};
use crate::layout_laws::law_fields_of_structs_stand_where_they_lie;
use crate::resolved_type::{ResolvedStructType, ResolvedType};
use std::rc::Rc;
use vstd::prelude::*;

verus! {

/// How far along something lies that a step of a place leads to within what it
/// starts from: a field where its struct has it, a tag in front, what all
/// variants share and what one of them holds where the enum has it, and the
/// second half of a pair behind a pointer.
pub open spec fn distance(ty: ResolvedType, step: MirProjection, pointer_bytes: u32) -> Option<nat> {
    match (step, ty) {
        (MirProjection::FieldAccess { index, .. }, ResolvedType::Struct(cell)) => Some(
            plan_offset(
                field_parts(cell.fields@, pointer_bytes),
                index as int,
                cell.layout.pack as nat,
                pointer_bytes,
            ),
        ),
        (MirProjection::UnionField { .. }, _) => Some(0),
        (MirProjection::EnumTag { .. }, ResolvedType::Enum { .. }) => Some(0),
        (MirProjection::EnumHeader { index, .. }, ResolvedType::Enum { cell, .. }) => Some(
            header_at(*cell, index as int, pointer_bytes),
        ),
        (MirProjection::EnumDynamicField { index, .. }, ResolvedType::Enum { cell, .. }) => Some(
            dynamic_at(*cell, index as int, pointer_bytes),
        ),
        (
            MirProjection::EnumBody { variant_index, field_index, .. },
            ResolvedType::Enum { cell, .. },
        ) => Some(body_at(*cell, variant_index as int, field_index as int, pointer_bytes)),
        (MirProjection::SliceLength, _) => Some(pointer_bytes as nat),
        (MirProjection::SpecObjectPtr { .. }, _) => Some(0),
        (MirProjection::SpecObjectVtable, _) => Some(pointer_bytes as nat),
        _ => None,
    }
}

proof fn lemma_within(w: World, m: Machine, p: PlaceState, next: PlaceState, by: nat)
    requires
        reachable(p.state, p.storage),
        shifted(p.storage, by) == Some(next.storage) || by == 0 && next.storage == p.storage,
    ensures
        reachable(p.state, next.storage),
        address(w, m, next.storage) == address(w, m, p.storage) + by,
{
}

/// A step within something in memory leads as far along as the part lies, and
/// needs no instruction.
#[verifier::rlimit(60)]
pub proof fn law_steps_within(
    w: World,
    frame: FrameView,
    p: PlaceState,
    m: Machine,
    step: MirProjection,
)
    requires
        reachable(p.state, p.storage),
        projected(frame, p, step) is Some,
        distance(p.ty, step, frame.pb()) is Some,
    ensures
        projected(frame, p, step)->0.state == p.state,
        reachable(p.state, projected(frame, p, step)->0.storage),
        address(w, m, projected(frame, p, step)->0.storage) == address(w, m, p.storage) + distance(
            p.ty,
            step,
            frame.pb(),
        )->0,
{
    let pb = frame.pb();
    let by = distance(p.ty, step, pb)->0;
    let next = projected(frame, p, step)->0;
    match p.storage {
        Storage::Values(_) => {},
        _ => {
            lemma_within(w, m, p, next, by);
        },
    }
}

/// A pointer leads to where it points: to what is read from where it lies.
pub proof fn law_pointers_lead_to_what_they_hold(
    w: World,
    frame: FrameView,
    p: PlaceState,
    m: Machine,
    step: MirProjection,
)
    requires
        m.values.len() == p.state.steps.len(),
        reachable(p.state, p.storage),
        p.ty is Pointer,
        step is Deref,
        projected(frame, p, step) is Some,
        p.state.steps.len() + 1 < usize::MAX,
    ensures
        ({
            let next = projected(frame, p, step)->0;
            let done = Lowered { state: next.state, values: Seq::empty() };
            &&& runs(w, p.state, m, done)
            &&& outcome(w, m, done).memory == m.memory
            &&& reachable(next.state, next.storage)
            &&& address(w, outcome(w, m, done), next.storage) == read(
                m.memory,
                address(w, m, p.storage),
                frame.pb() as nat,
            )
        }),
{
    let pb = frame.pb();
    let leaves = leaves_spec(p.ty, pb);
    assert(leaves =~= seq![Leaf::Ptr]);
    lemma_loaded(w, p.state, m, p.storage, leaves, pb, leaves.len());
    let found = leaves_loaded(p.state, p.storage, leaves, pb, leaves.len())->0;
    assert(found.values[0] < found.state.steps.len());
    let done = Lowered { state: found.state, values: Seq::<usize>::empty() };
    assert(outcome(w, m, done) == outcome(w, m, found));
    assert(leaves_width(leaves, pb, 0) == 0);
}

/// An array's elements start where it lies.
pub proof fn law_arrays_hold_their_elements(
    w: World,
    s: LoweringView,
    m: Machine,
    storage: Storage,
    ty: ResolvedType,
    pointer_bytes: u32,
)
    requires
        s.steps.len() + 1 < usize::MAX,
        m.values.len() == s.steps.len(),
        ty is SizedArray,
        reachable(s, storage),
        storage matches Storage::Address { base, .. } ==> s.type_of(base) == Some(
            pointer_ir(pointer_bytes),
        ) && 0 <= value(m, base),
        fits(address(w, m, storage), bits_in(pointer_ir(pointer_bytes))),
    ensures
        gives(
            w,
            s,
            m,
            elements_base(s, storage, ty, pointer_bytes),
            pointer_ir(pointer_bytes),
            address(w, m, storage),
        ),
{
    law_addresses(w, s, m, storage, pointer_bytes);
}

/// The elements of a slice, of a text and of an array of unknown size start
/// where its first half points.
pub proof fn law_sequences_point_to_their_elements(
    w: World,
    s: LoweringView,
    m: Machine,
    storage: Storage,
    ty: ResolvedType,
    pointer_bytes: u32,
)
    requires
        s.steps.len() + 2 < usize::MAX,
        m.values.len() == s.steps.len(),
        ty is Slice || ty is Str || ty is Array,
        reachable(s, storage),
        loaded(s, storage, ty, pointer_bytes) is Some,
        pointer_bytes == 2 || pointer_bytes == 4 || pointer_bytes == 8,
        fits(read(m.memory, address(w, m, storage), pointer_bytes as nat), 8 * pointer_bytes as nat),
    ensures
        gives(
            w,
            s,
            m,
            elements_base(s, storage, ty, pointer_bytes),
            pointer_ir(pointer_bytes),
            read(m.memory, address(w, m, storage), pointer_bytes as nat),
        ),
{
    let leaves = leaves_spec(ty, pointer_bytes);
    assert(leaves.len() == 1 || leaves.len() == 2);
    assert(leaves[0] is Ptr);
    lemma_loaded(w, s, m, storage, leaves, pointer_bytes, leaves.len());
    let found = leaves_loaded(s, storage, leaves, pointer_bytes, leaves.len())->0;
    assert(found.values[0] < found.state.steps.len());
    assert(leaves_width(leaves, pointer_bytes, 0) == 0);
    let base = elements_base(s, storage, ty, pointer_bytes)->0;
    assert(outcome(w, m, base) == outcome(w, m, found));
}

/// An index leads to as many elements behind the first as it says.
pub proof fn law_indexing(
    w: World,
    frame: FrameView,
    p: PlaceState,
    m: Machine,
    step: MirProjection,
    index_ty: IrType,
    a: int,
    i: int,
)
    requires
        m.values.len() == p.state.steps.len(),
        step is Index,
        ({
            let base = elements_base(p.state, p.storage, p.ty, frame.pb());
            let index = expr_lowered(frame, *step->index_expr, base->0.state);
            &&& gives(w, p.state, m, base, pointer_ir(frame.pb()), a)
            &&& gives(w, base->0.state, outcome(w, m, base->0), index, index_ty, i)
            &&& index->0.state.steps.len() + 4 < usize::MAX
        }),
        fits(i, 8 * frame.pb() as nat),
        size_of(step->item_type, frame.pb()) <= u32::MAX,
        fits(size_of(step->item_type, frame.pb()) as int, 8 * frame.pb() as nat),
    ensures
        projected(frame, p, step) matches Some(next) && {
            let done = Lowered { state: next.state, values: Seq::empty() };
            &&& runs(w, p.state, m, done)
            &&& reachable(next.state, next.storage)
            &&& address(w, outcome(w, m, done), next.storage) == wrap(
                a + i * size_of(step->item_type, frame.pb()),
                8 * frame.pb() as nat,
            )
        },
{
    let pb = frame.pb();
    let base = elements_base(p.state, p.storage, p.ty, pb)->0;
    let index = expr_lowered(frame, *step->index_expr, base.state)->0;
    let size = size_of(step->item_type, pb);
    lemma_both(w, p.state, m, base, index);
    let mid = outcome(w, m, index);
    assert(held(index.state, mid, base.values[0], pointer_ir(pb), a));
    law_element_addresses(
        w,
        index.state,
        mid,
        base.values[0],
        index.values[0],
        index_ty,
        size,
        pb,
        a,
        i,
    );
    let found = element_address(index.state, base.values[0], index.values[0], size, pb)->0;
    lemma_both(w, p.state, m, index, found);
    let done = Lowered { state: found.state, values: Seq::<usize>::empty() };
    assert(outcome(w, m, done) == outcome(w, m, found));
}

/// Where a slice ends: at its bound, behind it where the range holds the bound
/// too, and at the length of the whole where there is none.
pub open spec fn last_of(slice: MirSlice, length: int, bound: int, width: nat) -> int {
    if slice.end is None {
        length
    } else if slice.inclusive {
        wrap(bound + 1, width)
    } else {
        bound
    }
}

proof fn lemma_sliced(
    w: World,
    s: LoweringView,
    m: Machine,
    last: Lowered,
    data: usize,
    start: usize,
    end: usize,
    ty: IrType,
    size: nat,
    pointer_bytes: u32,
    a: int,
    x: int,
    y: int,
)
    requires
        m.values.len() == s.steps.len(),
        runs(w, s, m, last),
        last.state.steps.len() + 5 < usize::MAX,
        held(last.state, outcome(w, m, last), data, pointer_ir(pointer_bytes), a),
        held(last.state, outcome(w, m, last), start, ty, x),
        held(last.state, outcome(w, m, last), end, ty, y),
        !is_floating(ty),
        fits(x, bits_in(pointer_ir(pointer_bytes))),
        fits(size as int, bits_in(pointer_ir(pointer_bytes))),
        size <= u32::MAX,
    ensures
        gives_two(
            w,
            s,
            m,
            crate::codegen::cranelift::expr::sliced(
                last.state,
                data,
                start,
                end,
                size,
                pointer_bytes,
            ),
            pointer_ir(pointer_bytes),
            wrap(a + x * size, bits_in(pointer_ir(pointer_bytes))),
            ty,
            wrap(y - x, bits_in(ty)),
        ),
{
    let ptr = pointer_ir(pointer_bytes);
    let width = bits_in(ptr);
    lemma_widened(w, s, m, last, start, ty, x, pointer_bytes);
    let wide = pointer_wide(last.state, start, pointer_bytes)->0;
    let o0 = outcome(w, m, wide);
    assert(held(wide.state, o0, data, ptr, a));
    assert(held(wide.state, o0, start, ty, x));
    assert(held(wide.state, o0, end, ty, y));
    lemma_wrap_small(size as int, width);
    let scale_op = Op::Iconst(size as i64);
    lemma_then(w, s, m, wide, scale_op, ptr, size as int);
    let scale = wide.state.define(scale_op, ptr);
    let o1 = outcome(w, m, scale);
    assert(held(scale.state, o1, wide.values[0], ptr, x));
    assert(held(scale.state, o1, data, ptr, a));
    assert(held(scale.state, o1, start, ty, x));
    assert(held(scale.state, o1, end, ty, y));
    let along_op = Op::Binary {
        op: Arith::Imul,
        left: wide.values[0],
        right: scale.values[0],
    };
    lemma_wrap_fits(x * size, width);
    lemma_then(w, s, m, scale, along_op, ptr, wrap(x * size, width));
    let along = scale.state.define(along_op, ptr);
    let o2 = outcome(w, m, along);
    assert(held(along.state, o2, data, ptr, a));
    assert(held(along.state, o2, start, ty, x));
    assert(held(along.state, o2, end, ty, y));
    let sum_op = Op::Binary { op: Arith::Iadd, left: data, right: along.values[0] };
    lemma_scaled_sum(a, x, size as int, width);
    lemma_wrap_fits(a + x * size, width);
    lemma_then(w, s, m, along, sum_op, ptr, wrap(a + x * size, width));
    let pointer = along.state.define(sum_op, ptr);
    let o3 = outcome(w, m, pointer);
    assert(held(pointer.state, o3, start, ty, x));
    assert(held(pointer.state, o3, end, ty, y));
    let length_op = Op::Binary { op: Arith::Isub, left: end, right: start };
    lemma_wrap_fits(y - x, bits_in(ty));
    lemma_then(w, s, m, pointer, length_op, ty, wrap(y - x, bits_in(ty)));
    let length = pointer.state.define(length_op, ty);
    assert(held(
        length.state,
        outcome(w, m, length),
        pointer.values[0],
        ptr,
        wrap(a + x * size, width),
    ));
    let both = Lowered { values: pointer.values + length.values, ..length };
    assert(outcome(w, m, both) == outcome(w, m, length));
}

/// Part of a sequence starts as many elements behind the first as its start
/// says, at the first where it has no start; and it is as long as its end is
/// behind its start.
pub proof fn law_slices(
    w: World,
    frame: FrameView,
    slice: MirSlice,
    parts: Lowered,
    m: Machine,
    a: int,
    n: int,
    x: int,
    y: int,
)
    requires
        m.values.len() == parts.state.steps.len(),
        parts.state.steps.len() < usize::MAX,
        parts.values.len() == 2,
        held(parts.state, m, parts.values[0], pointer_ir(frame.pb()), a),
        held(parts.state, m, parts.values[1], IrType::I32, n),
        match slice.start {
            Some(expr) => gives(
                w,
                parts.state,
                m,
                expr_lowered(frame, *expr, parts.state),
                IrType::I32,
                x,
            ),
            None => x == 0,
        },
        ({
            let start = bound_lowered(frame, slice.start, parts.state)->0;
            match slice.end {
                Some(expr) => {
                    let end = expr_lowered(frame, *expr, start.state);
                    &&& gives(w, start.state, outcome(w, m, start), end, IrType::I32, y)
                    &&& end->0.state.steps.len() + 6 < usize::MAX
                },
                None => start.state.steps.len() + 6 < usize::MAX,
            }
        }),
        fits(x, 8 * frame.pb() as nat),
        size_of(slice.item_type, frame.pb()) <= u32::MAX,
        fits(size_of(slice.item_type, frame.pb()) as int, 8 * frame.pb() as nat),
    ensures
        gives_two(
            w,
            parts.state,
            m,
            slice_of(frame, slice, parts),
            pointer_ir(frame.pb()),
            wrap(a + x * size_of(slice.item_type, frame.pb()), 8 * frame.pb() as nat),
            IrType::I32,
            wrap(last_of(slice, n, y, 32) - x, 32),
        ),
{
    let s = parts.state;
    let pb = frame.pb();
    let ptr = pointer_ir(pb);
    lemma_nothing(w, s, m, parts.values);
    let start = bound_lowered(frame, slice.start, s)->0;
    match slice.start {
        Some(expr) => {
            let found = expr_lowered(frame, *expr, s)->0;
            assert(first_of(Some(found))->0.values =~= found.values);
        },
        None => {
            vstd::arithmetic::power2::lemma2_to64();
            lemma_wrap_small(0, 32);
            lemma_then(w, s, m, parts, Op::Iconst(0), IrType::I32, 0);
        },
    }
    assert(gives(w, s, m, Some(start), IrType::I32, x));
    lemma_both(w, s, m, parts, start);
    let o1 = outcome(w, m, start);
    assert(held(start.state, o1, parts.values[0], ptr, a));
    assert(held(start.state, o1, parts.values[1], IrType::I32, n));
    match slice.end {
        Some(expr) => {
            let end = expr_lowered(frame, *expr, start.state)->0;
            assert(first_of(Some(end))->0.values =~= end.values);
            lemma_both(w, s, m, start, end);
            let o2 = outcome(w, m, end);
            assert(held(end.state, o2, parts.values[0], ptr, a));
            assert(held(end.state, o2, start.values[0], IrType::I32, x));
            if slice.inclusive {
                let op = Op::IaddImm { value: end.values[0], imm: 1 };
                lemma_wrap_fits(y + 1, 32);
                lemma_then(w, s, m, end, op, IrType::I32, wrap(y + 1, 32));
                let behind = end.state.define(op, IrType::I32);
                let o3 = outcome(w, m, behind);
                assert(held(behind.state, o3, parts.values[0], ptr, a));
                assert(held(behind.state, o3, start.values[0], IrType::I32, x));
                lemma_sliced(
                    w,
                    s,
                    m,
                    behind,
                    parts.values[0],
                    start.values[0],
                    behind.values[0],
                    IrType::I32,
                    size_of(slice.item_type, pb),
                    pb,
                    a,
                    x,
                    wrap(y + 1, 32),
                );
            } else {
                lemma_sliced(
                    w,
                    s,
                    m,
                    end,
                    parts.values[0],
                    start.values[0],
                    end.values[0],
                    IrType::I32,
                    size_of(slice.item_type, pb),
                    pb,
                    a,
                    x,
                    y,
                );
            }
        },
        None => {
            let end = Lowered { state: start.state, values: seq![parts.values[1]] };
            assert(outcome(w, m, end) == o1);
            lemma_sliced(
                w,
                s,
                m,
                end,
                parts.values[0],
                start.values[0],
                parts.values[1],
                IrType::I32,
                size_of(slice.item_type, pb),
                pb,
                a,
                x,
                n,
            );
        },
    }
}

/// A pointer to an array becomes a slice of as many elements; a slice becomes
/// the pointer it holds; and a spec object narrowed keeps its data and has a
/// table that starts further along, by as many entries as are left out.
pub proof fn law_wide_pointers(
    w: World,
    base: Lowered,
    m: Machine,
    kind: CastKind,
    source: ResolvedType,
    target: IrType,
    pointer_bytes: u32,
    a: int,
    b: int,
)
    requires
        base.state.steps.len() < usize::MAX,
        m.values.len() == base.state.steps.len(),
        base.values.len() > 0,
        held(base.state, m, base.values[0], pointer_ir(pointer_bytes), a),
        base.values.len() > 1 ==> held(
            base.state,
            m,
            base.values[1],
            pointer_ir(pointer_bytes),
            b,
        ),
    ensures
        kind is DropLength ==> gives(
            w,
            base.state,
            m,
            converted(base, kind, source, target, pointer_bytes),
            pointer_ir(pointer_bytes),
            a,
        ),
        kind is Unsize ==> (source matches ResolvedType::Pointer { pointee, .. } ==> (
        *pointee matches ResolvedType::SizedArray(_, size) ==> gives_two(
            w,
            base.state,
            m,
            converted(base, kind, source, target, pointer_bytes),
            pointer_ir(pointer_bytes),
            a,
            IrType::I32,
            size as int,
        ))),
        kind matches CastKind::SpecNarrow { slot_offset } ==> (base.values.len() > 1 && slot_offset
            * pointer_bytes <= i64::MAX ==> gives_two(
            w,
            base.state,
            m,
            converted(base, kind, source, target, pointer_bytes),
            pointer_ir(pointer_bytes),
            a,
            pointer_ir(pointer_bytes),
            wrap(b + slot_offset * pointer_bytes, bits_in(pointer_ir(pointer_bytes))),
        )),
{
    let s = base.state;
    let ptr = pointer_ir(pointer_bytes);
    lemma_nothing(w, s, m, base.values);
    match kind {
        CastKind::DropLength => {
            lemma_nothing(w, s, m, seq![base.values[0]]);
        },
        CastKind::Unsize => {
            if let ResolvedType::Pointer { pointee, .. } = source {
                if let ResolvedType::SizedArray(_, size) = *pointee {
                    vstd::arithmetic::power2::lemma2_to64();
                    lemma_wrap_small(size as int, 32);
                    lemma_then(w, s, m, base, Op::Iconst(size as i64), IrType::I32, size as int);
                    let length = s.define(Op::Iconst(size as i64), IrType::I32);
                    assert(held(length.state, outcome(w, m, length), base.values[0], ptr, a));
                    let both = Lowered {
                        values: seq![base.values[0], length.values[0]],
                        ..length
                    };
                    assert(outcome(w, m, both) == outcome(w, m, length));
                }
            }
        },
        CastKind::SpecNarrow { slot_offset } => {
            if base.values.len() > 1 && slot_offset * pointer_bytes <= i64::MAX {
                let by = slot_offset * pointer_bytes;
                let op = Op::IaddImm { value: base.values[1], imm: by as i64 };
                lemma_wrap_fits(b + by, bits_in(ptr));
                lemma_then(w, s, m, base, op, ptr, wrap(b + by, bits_in(ptr)));
                let table = s.define(op, ptr);
                assert(held(table.state, outcome(w, m, table), base.values[0], ptr, a));
                let both = Lowered { values: seq![base.values[0], table.values[0]], ..table };
                assert(outcome(w, m, both) == outcome(w, m, table));
            }
        },
        _ => {},
    }
}

/// A field of a struct in values is those of them that would be read from where
/// the field lies, were the struct in memory.
pub proof fn law_fields_in_values_are_those_in_memory(
    values: Seq<usize>,
    ty: ResolvedType,
    cell: Rc<ResolvedStructType>,
    index: int,
    pointer_bytes: u32,
)
    requires
        ty == ResolvedType::Struct(cell),
        cell.layout.pack >= 1,
        0 <= index < cell.fields@.len(),
        values.len() == leaves_spec(ty, pointer_bytes).len(),
    ensures
        field_storage(Storage::Values(values), *cell, index, pointer_bytes) matches Some(
            Storage::Values(found),
        ) && {
            let own = leaves_spec(cell.fields@[index].ty, pointer_bytes);
            &&& found.len() == own.len()
            &&& exists|start: int|
                {
                    &&& 0 <= start <= values.len() - own.len()
                    &&& found == #[trigger] values.subrange(start, start + own.len())
                    &&& own == leaves_spec(ty, pointer_bytes).subrange(start, start + own.len())
                    &&& leaf_bytes(
                        leaves_spec(ty, pointer_bytes).take(start),
                        pointer_bytes,
                    ) == plan_offset(
                        field_parts(cell.fields@, pointer_bytes),
                        index,
                        cell.layout.pack as nat,
                        pointer_bytes,
                    )
                }
        },
{
    law_fields_of_structs_stand_where_they_lie(ty, cell, index, pointer_bytes);
    let start = plan_start(
        field_parts(cell.fields@, pointer_bytes),
        index,
        cell.layout.pack as nat,
        pointer_bytes,
    ) as int;
    let own = leaves_spec(cell.fields@[index].ty, pointer_bytes);
    let found = values.subrange(start, start + own.len());
    assert(field_storage(Storage::Values(values), *cell, index, pointer_bytes) == Some(
        Storage::Values(found),
    ));
}

} // verus!
