//! What the instructions that reach memory do, and where control goes.

use crate::codegen::cranelift::{
    addressed, leaf_ir, leaves_loaded, leaves_width, load_op, loaded, pointer_ir, store_op, stored,
    values_width, Arith, Convert, FrameView, IrType, Lowered, LoweringView, Op, Storage,
};
use crate::codegen::cranelift::evaluation::{
    begins, bits_at, bits_in, effect, held, lemma_begins_all, lemma_begins_itself, lemma_run_on,
    lemma_run_one, run, slot_at, World,
};
use crate::codegen::cranelift::expr::expr_lowered;
use crate::codegen::cranelift::expression_laws::{
    gives, lemma_both, lemma_nothing, lemma_then, memory_after, outcome, runs,
};
use crate::codegen::cranelift::function::terminated;
use crate::codegen::cranelift::place::{element_address, place_resolved, pointer_wide, PlaceState};
use crate::codegen::machine::{
    continues, fits, law_what_is_written_is_read, lemma_read_alike, lemma_wrap_fits,
    lemma_wrap_small, read, value, wrap, Machine,
};
use crate::codegen::mir::{MirAssignment, MirExpr, MirExprNode, MirTerminator};
use crate::layout::{leaves_spec, Leaf};
use crate::resolved_type::ResolvedType;
use vstd::arithmetic::div_mod::lemma_add_mod_noop_right;
use vstd::arithmetic::power2::{lemma_pow2_pos, pow2};
use vstd::prelude::*;

verus! {

/// Where a storage in memory lies.
pub open spec fn address(w: World, m: Machine, storage: Storage) -> int {
    match storage {
        Storage::Values(_) => 0,
        Storage::Slot { slot, offset } => slot_at(w, slot) + offset,
        Storage::Address { base, offset } => value(m, base) + offset,
    }
}

/// Whether a storage lies in memory, at something that has been defined.
pub open spec fn reachable(s: LoweringView, storage: Storage) -> bool {
    match storage {
        Storage::Values(_) => false,
        Storage::Slot { .. } => true,
        Storage::Address { base, .. } => base < s.steps.len(),
    }
}

/// The bytes of a value of some type.
pub open spec fn width_of(s: LoweringView, index: usize) -> nat {
    match s.type_of(index) {
        Some(ty) => ty.width(),
        None => 0,
    }
}

/// Whether the first `n` of some values lie in memory, each behind the ones
/// before it.
pub open spec fn lie_at(
    s: LoweringView,
    m: Machine,
    memory: spec_fn(int) -> int,
    at: int,
    values: Seq<usize>,
    n: nat,
) -> bool
    decreases n,
{
    n == 0 || {
        &&& lie_at(s, m, memory, at, values, (n - 1) as nat)
        &&& read(
            memory,
            at + values_width(s, values, (n - 1) as nat)->0,
            width_of(s, values[n - 1]),
        ) == value(m, values[n - 1])
    }
}

/// Whether values are there and have as many bits as their types.
pub open spec fn there(s: LoweringView, m: Machine, values: Seq<usize>) -> bool {
    forall|i: int|
        0 <= i < values.len() ==> {
            &&& (#[trigger] values[i]) < s.steps.len()
            &&& s.type_of(values[i]) is Some
            &&& fits(value(m, values[i]), 8 * width_of(s, values[i]))
        }
}

proof fn lemma_lie_still(
    s: LoweringView,
    m: Machine,
    a: spec_fn(int) -> int,
    b: spec_fn(int) -> int,
    at: int,
    values: Seq<usize>,
    n: nat,
)
    requires
        n <= values.len(),
        there(s, m, values),
        lie_at(s, m, a, at, values, n),
        values_width(s, values, n) is Some,
        forall|address: int|
            at <= address < at + values_width(s, values, n)->0 ==> #[trigger] a(address) == b(
                address,
            ),
    ensures
        lie_at(s, m, b, at, values, n),
    decreases n,
{
    if n > 0 {
        let before = values_width(s, values, (n - 1) as nat)->0;
        lemma_lie_still(s, m, a, b, at, values, (n - 1) as nat);
        lemma_read_alike(a, b, at + before, width_of(s, values[n - 1]));
    }
}

proof fn lemma_stored(
    w: World,
    s: LoweringView,
    m: Machine,
    storage: Storage,
    values: Seq<usize>,
    n: nat,
)
    requires
        m.values.len() == s.steps.len(),
        reachable(s, storage),
        there(s, m, values),
        n <= values.len(),
        stored(s, storage, values, n) is Some,
    ensures
        ({
            let after = stored(s, storage, values, n)->0;
            let end = run(w, after.steps, m);
            let at = address(w, m, storage);
            &&& values_width(s, values, n) is Some
            &&& begins(after.steps, s.steps)
            &&& end is Some
            &&& end->0.values.len() == after.steps.len()
            &&& continues(m, end->0)
            &&& lie_at(s, m, end->0.memory, at, values, n)
            &&& forall|address: int|
                !(at <= address < at + values_width(s, values, n)->0) ==> #[trigger] (
                end->0.memory)(address) == (m.memory)(address)
        }),
    decreases n,
{
    let at = address(w, m, storage);
    if n == 0 {
        lemma_begins_itself(s.steps);
    } else {
        lemma_stored(w, s, m, storage, values, (n - 1) as nat);
        let before = stored(s, storage, values, (n - 1) as nat)->0;
        let mid = run(w, before.steps, m)->0;
        let last = values[n - 1];
        let along = values_width(s, values, (n - 1) as nat)->0;
        let op = store_op(storage, last, along)->0;
        let after = stored(s, storage, values, n)->0;
        assert(before.steps.take(s.steps.len() as int)[last as int] == before.steps[last as int]);
        assert(bits_at(before.steps, last) / 8 == width_of(s, last));
        assert(effect(w, before.steps, mid, op, None) == Some(
            mid.storing(at + along, width_of(s, last), value(m, last)),
        ));
        lemma_run_one(w, before, mid, op, None);
        lemma_run_on(w, before.steps, after.steps, m);
        lemma_begins_all(s.steps, before.steps, after.steps);
        let end = run(w, after.steps, m)->0;
        law_what_is_written_is_read(
            mid.memory,
            at + along,
            width_of(s, last),
            value(m, last),
        );
        lemma_lie_still(s, m, mid.memory, end.memory, at, values, (n - 1) as nat);
    }
}

pub(crate) proof fn lemma_loaded(
    w: World,
    s: LoweringView,
    m: Machine,
    storage: Storage,
    leaves: Seq<Leaf>,
    pointer_bytes: u32,
    n: nat,
)
    requires
        m.values.len() == s.steps.len(),
        reachable(s, storage),
        n <= leaves.len(),
        leaves_loaded(s, storage, leaves, pointer_bytes, n) is Some,
        s.steps.len() + n < usize::MAX,
    ensures
        ({
            let found = leaves_loaded(s, storage, leaves, pointer_bytes, n)->0;
            let end = outcome(w, m, found);
            &&& runs(w, s, m, found)
            &&& found.state.steps.len() == s.steps.len() + n
            &&& end.values.len() == found.state.steps.len()
            &&& continues(m, end)
            &&& end.memory == m.memory
            &&& found.values.len() == n
            &&& forall|i: int|
                0 <= i < n ==> {
                    &&& (#[trigger] found.values[i]) < found.state.steps.len()
                    &&& found.state.type_of(found.values[i]) == Some(
                        leaf_ir(leaves[i], pointer_bytes),
                    )
                    &&& value(end, found.values[i]) == read(
                        m.memory,
                        address(w, m, storage) + leaves_width(leaves, pointer_bytes, i as nat),
                        leaf_ir(leaves[i], pointer_bytes).width(),
                    )
                }
        }),
    decreases n,
{
    if n == 0 {
        lemma_begins_itself(s.steps);
    } else {
        lemma_loaded(w, s, m, storage, leaves, pointer_bytes, (n - 1) as nat);
        let before = leaves_loaded(s, storage, leaves, pointer_bytes, (n - 1) as nat)->0;
        let mid = outcome(w, m, before);
        let op = load_op(storage, leaves_width(leaves, pointer_bytes, (n - 1) as nat))->0;
        let ty = leaf_ir(leaves[n - 1], pointer_bytes);
        let found = leaves_loaded(s, storage, leaves, pointer_bytes, n)->0;
        lemma_run_one(w, before.state, mid, op, Some(ty));
        lemma_run_on(w, before.state.steps, found.state.steps, m);
        lemma_begins_all(s.steps, before.state.steps, found.state.steps);
    }
}

proof fn lemma_widths_agree(
    s: LoweringView,
    values: Seq<usize>,
    leaves: Seq<Leaf>,
    pointer_bytes: u32,
    n: nat,
)
    requires
        n <= values.len(),
        values.len() == leaves.len(),
        forall|i: int|
            0 <= i < values.len() ==> s.type_of(#[trigger] values[i]) == Some(
                leaf_ir(leaves[i], pointer_bytes),
            ),
    ensures
        values_width(s, values, n) == Some(leaves_width(leaves, pointer_bytes, n)),
    decreases n,
{
    if n > 0 {
        lemma_widths_agree(s, values, leaves, pointer_bytes, (n - 1) as nat);
        assert(s.type_of(values[n - 1]) is Some);
    }
}

proof fn lemma_lies_there(
    s: LoweringView,
    m: Machine,
    memory: spec_fn(int) -> int,
    at: int,
    values: Seq<usize>,
    n: nat,
    i: int,
)
    requires
        lie_at(s, m, memory, at, values, n),
        0 <= i < n,
    ensures
        read(
            memory,
            at + values_width(s, values, i as nat)->0,
            width_of(s, values[i]),
        ) == value(m, values[i]),
    decreases n,
{
    if i < n - 1 {
        lemma_lies_there(s, m, memory, at, values, (n - 1) as nat, i);
    }
}

/// Values that are stored somewhere and then loaded from there are the same,
/// and memory is as before everywhere else.
pub proof fn law_what_is_stored_is_loaded(
    w: World,
    s: LoweringView,
    m: Machine,
    storage: Storage,
    values: Seq<usize>,
    ty: ResolvedType,
    pointer_bytes: u32,
)
    requires
        m.values.len() == s.steps.len(),
        reachable(s, storage),
        there(s, m, values),
        values.len() == leaves_spec(ty, pointer_bytes).len(),
        forall|i: int|
            0 <= i < values.len() ==> s.type_of(#[trigger] values[i]) == Some(
                leaf_ir(leaves_spec(ty, pointer_bytes)[i], pointer_bytes),
            ),
        stored(s, storage, values, values.len()) is Some,
        loaded(
            stored(s, storage, values, values.len())->0,
            storage,
            ty,
            pointer_bytes,
        ) is Some,
        stored(s, storage, values, values.len())->0.steps.len() + values.len() < usize::MAX,
    ensures
        ({
            let found = loaded(
                stored(s, storage, values, values.len())->0,
                storage,
                ty,
                pointer_bytes,
            )->0;
            let at = address(w, m, storage);
            &&& runs(w, s, m, found)
            &&& found.values.len() == values.len()
            &&& forall|i: int|
                0 <= i < values.len() ==> value(
                    outcome(w, m, found),
                    #[trigger] found.values[i],
                ) == value(m, values[i])
            &&& forall|address: int|
                !(at <= address < at + values_width(s, values, values.len())->0) ==> #[trigger] (
                outcome(w, m, found).memory)(address) == (m.memory)(address)
        }),
{
    let after = stored(s, storage, values, values.len())->0;
    let leaves = leaves_spec(ty, pointer_bytes);
    lemma_stored(w, s, m, storage, values, values.len());
    let mid = run(w, after.steps, m)->0;
    lemma_loaded(w, after, mid, storage, leaves, pointer_bytes, leaves.len());
    let found = loaded(after, storage, ty, pointer_bytes)->0;
    let first = Lowered { state: after, values };
    lemma_both(w, s, m, first, found);
    let end = outcome(w, m, found);
    assert(address(w, mid, storage) == address(w, m, storage));
    assert forall|i: int| 0 <= i < values.len() implies value(end, #[trigger] found.values[i])
        == value(m, values[i]) by {
        lemma_lies_there(s, m, mid.memory, address(w, m, storage), values, values.len(), i);
        lemma_widths_agree(s, values, leaves, pointer_bytes, i as nat);
        assert(s.type_of(values[i]) is Some);
    }
}

proof fn lemma_assigned(
    w: World,
    s: LoweringView,
    m: Machine,
    given: Lowered,
    target: PlaceState,
    ty: IrType,
    a: int,
)
    requires
        m.values.len() == s.steps.len(),
        gives(w, s, m, Some(given), ty, a),
        fits(a, bits_in(ty)),
        runs(
            w,
            given.state,
            outcome(w, m, given),
            Lowered { state: target.state, values: given.values },
        ),
        reachable(target.state, target.storage),
        stored(target.state, target.storage, given.values, 1) is Some,
    ensures
        ({
            let done = Lowered {
                state: stored(target.state, target.storage, given.values, 1)->0,
                values: given.values,
            };
            let before = outcome(w, m, Lowered { state: target.state, values: given.values });
            let at = address(w, before, target.storage);
            let after = outcome(w, m, done).memory;
            &&& gives(w, s, m, Some(done), ty, a)
            &&& read(after, at, ty.width()) == a
            &&& forall|address: int|
                !(at <= address < at + ty.width()) ==> #[trigger] after(address) == (
                before.memory)(address)
        }),
{
    let reached = Lowered { state: target.state, values: given.values };
    lemma_both(w, s, m, given, reached);
    let before = outcome(w, m, reached);
    let values = given.values;
    assert(held(target.state, before, values[0], ty, a));
    reveal_with_fuel(values_width, 2);
    reveal_with_fuel(lie_at, 2);
    lemma_stored(w, target.state, before, target.storage, values, 1);
    let done = Lowered { state: stored(target.state, target.storage, values, 1)->0, values };
    lemma_both(w, s, m, reached, done);
}

/// An assignment leaves its value where its target lies, and gives it.
pub proof fn law_assignments(
    w: World,
    frame: FrameView,
    s: LoweringView,
    m: Machine,
    node: MirExprNode,
    assignment: MirAssignment,
    ty: IrType,
    a: int,
)
    requires
        m.values.len() == s.steps.len(),
        node.kind == MirExpr::Assignment(assignment),
        gives(w, s, m, expr_lowered(frame, *assignment.value, s), ty, a),
        fits(a, bits_in(ty)),
        ({
            let given = expr_lowered(frame, *assignment.value, s)->0;
            let target = place_resolved(frame, assignment.target, given.state);
            &&& target is Some
            &&& runs(
                w,
                given.state,
                outcome(w, m, given),
                Lowered { state: target->0.state, values: given.values },
            )
            &&& reachable(target->0.state, target->0.storage)
        }),
        expr_lowered(frame, node, s) is Some,
    ensures
        gives(w, s, m, expr_lowered(frame, node, s), ty, a),
        ({
            let given = expr_lowered(frame, *assignment.value, s)->0;
            let target = place_resolved(frame, assignment.target, given.state)->0;
            let before = outcome(w, m, Lowered { state: target.state, values: given.values });
            let at = address(w, before, target.storage);
            let after = memory_after(w, m, expr_lowered(frame, node, s));
            &&& read(after, at, ty.width()) == a
            &&& forall|address: int|
                !(at <= address < at + ty.width()) ==> #[trigger] after(address) == (
                before.memory)(address)
        }),
{
    let given = expr_lowered(frame, *assignment.value, s)->0;
    let target = place_resolved(frame, assignment.target, given.state)->0;
    assert(stored(target.state, target.storage, given.values, given.values.len()) is Some);
    lemma_assigned(w, s, m, given, target, ty, a);
    let done = Lowered {
        state: stored(target.state, target.storage, given.values, 1)->0,
        values: given.values,
    };
    assert(expr_lowered(frame, node, s) == Some(done));
}

/// The address of what lies in memory is where it lies.
pub proof fn law_addresses(
    w: World,
    s: LoweringView,
    m: Machine,
    storage: Storage,
    pointer_bytes: u32,
)
    requires
        s.steps.len() + 1 < usize::MAX,
        m.values.len() == s.steps.len(),
        reachable(s, storage),
        storage matches Storage::Address { base, .. } ==> s.type_of(base) == Some(
            pointer_ir(pointer_bytes),
        ) && 0 <= value(m, base),
        fits(address(w, m, storage), bits_in(pointer_ir(pointer_bytes))),
    ensures
        gives(
            w,
            s,
            m,
            addressed(s, storage, pointer_bytes),
            pointer_ir(pointer_bytes),
            address(w, m, storage),
        ),
        memory_after(w, m, addressed(s, storage, pointer_bytes)) == m.memory,
{
    let ptr = pointer_ir(pointer_bytes);
    let at = address(w, m, storage);
    let start = Lowered { state: s, values: Seq::<usize>::empty() };
    lemma_nothing(w, s, m, Seq::empty());
    match storage {
        Storage::Values(_) => {},
        Storage::Slot { slot, offset } => {
            lemma_then(w, s, m, start, Op::StackAddr { slot, offset }, ptr, at);
        },
        Storage::Address { base, offset } => if offset == 0 {
            lemma_nothing(w, s, m, seq![base]);
        } else {
            lemma_wrap_small(offset as int, bits_in(ptr));
            lemma_then(w, s, m, start, Op::Iconst(offset as i64), ptr, offset as int);
            let moved_by = s.define(Op::Iconst(offset as i64), ptr);
            assert(held(s, m, base, ptr, value(m, base)));
            assert(held(moved_by.state, outcome(w, m, moved_by), base, ptr, value(m, base)));
            lemma_wrap_small(at, bits_in(ptr));
            lemma_then(
                w,
                s,
                m,
                moved_by,
                Op::Binary { op: Arith::Iadd, left: base, right: s.next() },
                ptr,
                at,
            );
        },
    }
}

pub(crate) proof fn lemma_widened(
    w: World,
    s: LoweringView,
    m: Machine,
    first: Lowered,
    index: usize,
    ty: IrType,
    bits: int,
    pointer_bytes: u32,
)
    requires
        first.state.steps.len() < usize::MAX,
        m.values.len() == s.steps.len(),
        runs(w, s, m, first),
        held(first.state, outcome(w, m, first), index, ty, bits),
        fits(bits, bits_in(pointer_ir(pointer_bytes))),
    ensures
        gives(
            w,
            s,
            m,
            pointer_wide(first.state, index, pointer_bytes),
            pointer_ir(pointer_bytes),
            bits,
        ),
        outcome(w, m, pointer_wide(first.state, index, pointer_bytes)->0).memory == outcome(
            w,
            m,
            first,
        ).memory,
        pointer_wide(first.state, index, pointer_bytes)->0.state.steps.len()
            <= first.state.steps.len() + 1,
        forall|i: usize, t: IrType, b: int|
            held(first.state, outcome(w, m, first), i, t, b) ==> #[trigger] held(
                pointer_wide(first.state, index, pointer_bytes)->0.state,
                outcome(w, m, pointer_wide(first.state, index, pointer_bytes)->0),
                i,
                t,
                b,
            ),
{
    let ptr = pointer_ir(pointer_bytes);
    if ty != ptr {
        lemma_wrap_small(bits, bits_in(ptr));
        lemma_then(
            w,
            s,
            m,
            first,
            Op::Convert { op: Convert::Uextend, value: index },
            ptr,
            bits,
        );
    }
}

pub(crate) proof fn lemma_scaled_sum(a: int, i: int, size: int, width: nat)
    requires
        fits(size, width),
    ensures
        wrap(a + wrap(i * wrap(size, width), width), width) == wrap(a + i * size, width),
{
    lemma_pow2_pos(width);
    lemma_wrap_small(size, width);
    lemma_add_mod_noop_right(a, i * size, pow2(width) as int);
}

/// The address of an element is that of the first one, and as many elements
/// further as the index says.
pub proof fn law_element_addresses(
    w: World,
    s: LoweringView,
    m: Machine,
    base: usize,
    index: usize,
    index_ty: IrType,
    size: nat,
    pointer_bytes: u32,
    a: int,
    i: int,
)
    requires
        s.steps.len() + 4 < usize::MAX,
        m.values.len() == s.steps.len(),
        held(s, m, base, pointer_ir(pointer_bytes), a),
        held(s, m, index, index_ty, i),
        fits(i, bits_in(pointer_ir(pointer_bytes))),
        fits(size as int, bits_in(pointer_ir(pointer_bytes))),
        size <= u32::MAX,
    ensures
        gives(
            w,
            s,
            m,
            element_address(s, base, index, size, pointer_bytes),
            pointer_ir(pointer_bytes),
            wrap(a + i * size, bits_in(pointer_ir(pointer_bytes))),
        ),
        memory_after(w, m, element_address(s, base, index, size, pointer_bytes)) == m.memory,
{
    let ptr = pointer_ir(pointer_bytes);
    let width = bits_in(ptr);
    lemma_nothing(w, s, m, seq![base]);
    let start = Lowered { state: s, values: seq![base] };
    assert(pointer_wide(s, base, pointer_bytes) == Some(start));
    lemma_widened(w, s, m, start, index, index_ty, i, pointer_bytes);
    let wide = pointer_wide(s, index, pointer_bytes)->0;
    assert(held(wide.state, outcome(w, m, wide), base, ptr, a));
    lemma_wrap_small(size as int, width);
    let scale_op = Op::Iconst(size as i64);
    lemma_then(w, s, m, wide, scale_op, ptr, size as int);
    let scale = wide.state.define(scale_op, ptr);
    assert(held(scale.state, outcome(w, m, scale), base, ptr, a));
    assert(held(scale.state, outcome(w, m, scale), wide.values[0], ptr, i));
    let along_op = Op::Binary {
        op: Arith::Imul,
        left: wide.values[0],
        right: scale.values[0],
    };
    lemma_wrap_fits(i * size, width);
    lemma_then(w, s, m, scale, along_op, ptr, wrap(i * size, width));
    let along = scale.state.define(along_op, ptr);
    assert(held(along.state, outcome(w, m, along), base, ptr, a));
    let sum_op = Op::Binary { op: Arith::Iadd, left: base, right: along.values[0] };
    lemma_scaled_sum(a, i, size as int, width);
    lemma_wrap_fits(a + i * size, width);
    lemma_then(w, s, m, along, sum_op, ptr, wrap(a + i * size, width));
}

/// A branch goes to its first block where the condition is other than zero, and
/// to its second one where it is zero.
pub open spec fn goes_to(m: Machine, op: Op) -> Option<usize> {
    match op {
        Op::Jump(target) => Some(target),
        Op::Brif { condition, then_block, else_block } => if value(m, condition) != 0 {
            Some(then_block)
        } else {
            Some(else_block)
        },
        _ => None,
    }
}

/// Once its condition has been computed, a branch goes to the block of the
/// condition where it holds and to the other one where it does not.
pub proof fn law_branches(
    w: World,
    frame: FrameView,
    s: LoweringView,
    m: Machine,
    terminator: MirTerminator,
    block_count: nat,
    sret: Option<usize>,
    ty: IrType,
    a: int,
)
    requires
        m.values.len() == s.steps.len(),
        block_count <= usize::MAX,
        match terminator {
            MirTerminator::Goto(target) => target.0 < block_count,
            MirTerminator::Branch { condition, then_block, else_block } => {
                &&& gives(w, s, m, expr_lowered(frame, condition, s), ty, a)
                &&& then_block.0 < block_count
                &&& else_block.0 < block_count
            },
            _ => false,
        },
    ensures
        terminated(frame, terminator, block_count, sret, s) matches Some(after) && {
            &&& after.steps.len() > 0
            &&& terminator matches MirTerminator::Goto(target) ==> goes_to(
                m,
                after.steps.last().op,
            ) == Some(target.0 as usize) && after.steps.drop_last() == s.steps
            &&& terminator matches MirTerminator::Branch {
                condition,
                then_block,
                else_block,
            } ==> goes_to(
                outcome(w, m, expr_lowered(frame, condition, s)->0),
                after.steps.last().op,
            ) == Some(
                (if a != 0 {
                    then_block
                } else {
                    else_block
                }).0 as usize,
            ) && after.steps.drop_last() == expr_lowered(frame, condition, s)->0.state.steps
        },
{
    let after = terminated(frame, terminator, block_count, sret, s)->0;
    match terminator {
        MirTerminator::Goto(_) => {
            assert(after.steps.drop_last() =~= s.steps);
        },
        MirTerminator::Branch { condition, .. } => {
            assert(after.steps.drop_last() =~= expr_lowered(frame, condition, s)->0.state.steps);
        },
        _ => {},
    }
}

} // verus!
