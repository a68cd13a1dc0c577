//! What the instructions that reach memory do, and what calls are handed.

use crate::codegen::abi::promoted;
use crate::codegen::constants::moved;
use crate::codegen::llvm::{
    addressed, aligned_at, all_stored, index_ir, int_value, leaf_type, leaves_loaded, leaves_width,
    loaded, stored, values_width, Convert, FrameView, Lowered, LoweringView, Op, Operand, Storage,
    Value, ValueType,
};
use crate::codegen::llvm::evaluation::{
    amount, begins, bits_in, effect, held, lemma_begins_all, lemma_begins_itself, lemma_run_on,
    lemma_run_one, run, World,
};
use crate::codegen::llvm::expr::{assigned, expr_lowered};
use crate::codegen::llvm::expression_laws::{
    address, comes_to, lemma_both, lemma_nothing, lemma_then, memory_after, outcome, runs,
};
use crate::codegen::llvm::operation_laws::of_kind;
use crate::codegen::llvm::place::place_resolved;
use crate::codegen::llvm::scalar::{passed, variadic_promoted};
use crate::codegen::machine::{
    continues, fits, kind_of, law_numbers_read_back, law_what_is_written_is_read, lemma_read_alike,
    lemma_wrap_fits, lemma_wrap_shift, lemma_wrap_small, number, read, signed, wrap, Machine,
};
use crate::codegen::mir::{MirAssignment, MirExpr, MirExprNode};
use crate::layout::{leaves_spec, Leaf};
use crate::resolved_type::{NumericKind, ResolvedType};
use vstd::arithmetic::power2::pow2;
use vstd::prelude::*;

verus! {

/// Whether a value has been defined.
pub open spec fn defined(m: Machine, v: Value) -> bool {
    v.operand matches Operand::Step(index) ==> index < m.values.len()
}

/// Whether some bytes from an address on lie in memory.
pub open spec fn room(w: World, at: int, count: nat) -> bool {
    0 <= at && at + count < pow2(8 * w.pointer_bytes as nat)
}

/// How wide pointers are.
pub open spec fn usual(w: World) -> bool {
    w.pointer_bytes == 2 || w.pointer_bytes == 4 || w.pointer_bytes == 8
}

/// Whether values have been defined, and have as many bits as they are wide.
pub open spec fn there(w: World, m: Machine, values: Seq<Value>) -> bool {
    forall|i: int|
        0 <= i < values.len() ==> {
            &&& defined(m, #[trigger] values[i])
            &&& bits_in(values[i].ty, w.pointer_bytes) == 8 * values[i].ty.width(w.pointer_bytes)
            &&& fits(amount(w, m, values[i]), bits_in(values[i].ty, w.pointer_bytes))
        }
}

/// Whether the first `n` of some values lie in memory, each behind the ones
/// before it.
pub open spec fn lie_at(
    w: World,
    m: Machine,
    memory: spec_fn(int) -> int,
    at: int,
    values: Seq<Value>,
    n: nat,
) -> bool
    decreases n,
{
    n == 0 || {
        &&& lie_at(w, m, memory, at, values, (n - 1) as nat)
        &&& read(
            memory,
            at + values_width(values, w.pointer_bytes, (n - 1) as nat),
            values[n - 1].ty.width(w.pointer_bytes),
        ) == amount(w, m, values[n - 1])
    }
}

/// An address further along.
proof fn lemma_along(w: World, s: LoweringView, m: Machine, base: Value, by: u32)
    requires
        usual(w),
        m.values.len() == s.steps.len(),
        room(w, amount(w, m, base) + by, 0),
        0 <= amount(w, m, base),
        s.steps.len() < usize::MAX,
    ensures
        ({
            let along = s.along(base, by, w.pointer_bytes);
            let end = run(w, along.state.steps, m);
            &&& begins(along.state.steps, s.steps)
            &&& end == Some(m.having(amount(w, m, base) + by))
            &&& amount(w, end->0, along.values[0]) == amount(w, m, base) + by
        }),
{
    let pb = w.pointer_bytes;
    let width = bits_in(index_ir(pb), pb);
    vstd::arithmetic::power2::lemma2_to64();
    vstd::arithmetic::power2::lemma2_to64_rest();
    let at = amount(w, m, base) + by;
    lemma_wrap_small(by as int, width);
    lemma_wrap_small(at, 8 * pb as nat);
    if pb == 4 {
        lemma_wrap_shift(at, -1, 32);
    }
    let op = Op::Gep { base, offset: int_value(index_ir(pb), by as u64) };
    lemma_run_one(w, s, m, op, Some(ValueType::Ptr));
}

proof fn lemma_lie_still(
    w: World,
    m: Machine,
    a: spec_fn(int) -> int,
    b: spec_fn(int) -> int,
    at: int,
    values: Seq<Value>,
    n: nat,
)
    requires
        lie_at(w, m, a, at, values, n),
        forall|address: int|
            at <= address < at + values_width(values, w.pointer_bytes, n) ==> #[trigger] a(address)
                == b(address),
    ensures
        lie_at(w, m, b, at, values, n),
    decreases n,
{
    if n > 0 {
        let before = values_width(values, w.pointer_bytes, (n - 1) as nat);
        lemma_lie_still(w, m, a, b, at, values, (n - 1) as nat);
        lemma_read_alike(a, b, at + before, values[n - 1].ty.width(w.pointer_bytes));
    }
}

proof fn lemma_stored(
    w: World,
    s: LoweringView,
    m: Machine,
    base: Value,
    offset: u32,
    values: Seq<Value>,
    align: u32,
    n: nat,
)
    requires
        usual(w),
        m.values.len() == s.steps.len(),
        defined(m, base),
        0 <= amount(w, m, base),
        there(w, m, values),
        n <= values.len(),
        room(w, amount(w, m, base) + offset, values_width(values, w.pointer_bytes, n)),
        s.steps.len() + 2 * n < usize::MAX,
        stored(s, base, offset, values, align, w.pointer_bytes, n) is Some,
    ensures
        ({
            let after = stored(s, base, offset, values, align, w.pointer_bytes, n)->0;
            let end = run(w, after.steps, m);
            let at = amount(w, m, base) + offset;
            &&& begins(after.steps, s.steps)
            &&& after.steps.len() == s.steps.len() + 2 * n
            &&& end is Some
            &&& end->0.values.len() == after.steps.len()
            &&& continues(m, end->0)
            &&& lie_at(w, m, end->0.memory, at, values, n)
            &&& forall|address: int|
                !(at <= address < at + values_width(values, w.pointer_bytes, n)) ==> #[trigger] (
                end->0.memory)(address) == (m.memory)(address)
        }),
    decreases n,
{
    let pb = w.pointer_bytes;
    let at = amount(w, m, base) + offset;
    if n == 0 {
        lemma_begins_itself(s.steps);
    } else {
        lemma_stored(w, s, m, base, offset, values, align, (n - 1) as nat);
        let before = stored(s, base, offset, values, align, pb, (n - 1) as nat)->0;
        let mid = run(w, before.steps, m)->0;
        let last = values[n - 1];
        let along = values_width(values, pb, (n - 1) as nat);
        let by = moved(offset, along)->0;
        lemma_along(w, before, mid, base, by);
        let pointer = before.along(base, by, pb);
        let ready = mid.having(at + along);
        let op = Op::Store {
            value: last,
            pointer: pointer.values[0],
            align: aligned_at(align, by),
        };
        let after = stored(s, base, offset, values, align, pb, n)->0;
        assert(effect(w, ready, op, None) == Some(
            ready.storing(at + along, last.ty.width(pb), amount(w, m, last)),
        ));
        lemma_run_one(w, pointer.state, ready, op, None);
        lemma_run_on(w, pointer.state.steps, after.steps, mid);
        lemma_begins_all(before.steps, pointer.state.steps, after.steps);
        lemma_run_on(w, before.steps, after.steps, m);
        lemma_begins_all(s.steps, before.steps, after.steps);
        let end = run(w, after.steps, m)->0;
        law_what_is_written_is_read(
            mid.memory,
            at + along,
            last.ty.width(pb),
            amount(w, m, last),
        );
        lemma_lie_still(w, m, mid.memory, end.memory, at, values, (n - 1) as nat);
    }
}

proof fn lemma_loaded(
    w: World,
    s: LoweringView,
    m: Machine,
    base: Value,
    offset: u32,
    leaves: Seq<Leaf>,
    align: u32,
    n: nat,
)
    requires
        usual(w),
        m.values.len() == s.steps.len(),
        defined(m, base),
        0 <= amount(w, m, base),
        n <= leaves.len(),
        room(w, amount(w, m, base) + offset, leaves_width(leaves, w.pointer_bytes, n)),
        s.steps.len() + 2 * n < usize::MAX,
        leaves_loaded(s, base, offset, leaves, align, w.pointer_bytes, n) is Some,
    ensures
        ({
            let found = leaves_loaded(s, base, offset, leaves, align, w.pointer_bytes, n)->0;
            let end = outcome(w, m, found);
            &&& runs(w, s, m, found)
            &&& found.state.steps.len() == s.steps.len() + 2 * n
            &&& end.values.len() == found.state.steps.len()
            &&& continues(m, end)
            &&& end.memory == m.memory
            &&& found.values.len() == n
            &&& forall|i: int|
                0 <= i < n ==> {
                    &&& defined(end, #[trigger] found.values[i])
                    &&& found.values[i].ty == leaf_type(leaves[i], w.pointer_bytes)
                    &&& amount(w, end, found.values[i]) == read(
                        m.memory,
                        amount(w, m, base) + offset + leaves_width(
                            leaves,
                            w.pointer_bytes,
                            i as nat,
                        ),
                        leaf_type(leaves[i], w.pointer_bytes).width(w.pointer_bytes),
                    )
                }
        }),
    decreases n,
{
    let pb = w.pointer_bytes;
    if n == 0 {
        lemma_begins_itself(s.steps);
    } else {
        lemma_loaded(w, s, m, base, offset, leaves, align, (n - 1) as nat);
        let before = leaves_loaded(s, base, offset, leaves, align, pb, (n - 1) as nat)->0;
        let mid = outcome(w, m, before);
        let by = moved(offset, leaves_width(leaves, pb, (n - 1) as nat))->0;
        let ty = leaf_type(leaves[n - 1], pb);
        lemma_along(w, before.state, mid, base, by);
        let pointer = before.state.along(base, by, pb);
        let ready = mid.having(amount(w, m, base) + by);
        let op = Op::Load { pointer: pointer.values[0], align: aligned_at(align, by) };
        let found = leaves_loaded(s, base, offset, leaves, align, pb, n)->0;
        lemma_run_one(w, pointer.state, ready, op, Some(ty));
        lemma_run_on(w, pointer.state.steps, found.state.steps, mid);
        lemma_begins_all(before.state.steps, pointer.state.steps, found.state.steps);
        lemma_run_on(w, before.state.steps, found.state.steps, m);
        lemma_begins_all(s.steps, before.state.steps, found.state.steps);
        assert(bits_in(ty, pb) / 8 == ty.width(pb));
    }
}

proof fn lemma_lies_there(
    w: World,
    m: Machine,
    memory: spec_fn(int) -> int,
    at: int,
    values: Seq<Value>,
    n: nat,
    i: int,
)
    requires
        lie_at(w, m, memory, at, values, n),
        0 <= i < n,
    ensures
        read(
            memory,
            at + values_width(values, w.pointer_bytes, i as nat),
            values[i].ty.width(w.pointer_bytes),
        ) == amount(w, m, values[i]),
    decreases n,
{
    if i < n - 1 {
        lemma_lies_there(w, m, memory, at, values, (n - 1) as nat, i);
    }
}

proof fn lemma_widths_agree(values: Seq<Value>, leaves: Seq<Leaf>, pointer_bytes: u32, n: nat)
    requires
        n <= values.len(),
        values.len() == leaves.len(),
        forall|i: int|
            0 <= i < values.len() ==> (#[trigger] values[i]).ty == leaf_type(
                leaves[i],
                pointer_bytes,
            ),
    ensures
        values_width(values, pointer_bytes, n) == leaves_width(leaves, pointer_bytes, n),
    decreases n,
{
    if n > 0 {
        lemma_widths_agree(values, leaves, pointer_bytes, (n - 1) as nat);
        assert(values[n - 1].ty == leaf_type(leaves[n - 1], pointer_bytes));
    }
}

/// Values that are stored somewhere and then loaded from there are the same,
/// and memory is as before everywhere else.
pub proof fn law_what_is_stored_is_loaded(
    w: World,
    s: LoweringView,
    m: Machine,
    base: Value,
    offset: u32,
    values: Seq<Value>,
    ty: ResolvedType,
    align: u32,
)
    requires
        usual(w),
        m.values.len() == s.steps.len(),
        defined(m, base),
        0 <= amount(w, m, base),
        there(w, m, values),
        values.len() == leaves_spec(ty, w.pointer_bytes).len(),
        forall|i: int|
            0 <= i < values.len() ==> (#[trigger] values[i]).ty == leaf_type(
                leaves_spec(ty, w.pointer_bytes)[i],
                w.pointer_bytes,
            ),
        room(
            w,
            amount(w, m, base) + offset,
            values_width(values, w.pointer_bytes, values.len()),
        ),
        s.steps.len() + 4 * values.len() < usize::MAX,
        all_stored(s, base, offset, values, align, w.pointer_bytes) is Some,
        loaded(
            all_stored(s, base, offset, values, align, w.pointer_bytes)->0,
            Storage::Memory { base, offset },
            ty,
            align,
            w.pointer_bytes,
        ) is Some,
    ensures
        ({
            let found = loaded(
                all_stored(s, base, offset, values, align, w.pointer_bytes)->0,
                Storage::Memory { base, offset },
                ty,
                align,
                w.pointer_bytes,
            )->0;
            let at = amount(w, m, base) + offset;
            let end = outcome(w, m, found);
            &&& runs(w, s, m, found)
            &&& found.values.len() == values.len()
            &&& forall|i: int|
                0 <= i < values.len() ==> amount(w, end, #[trigger] found.values[i]) == amount(
                    w,
                    m,
                    values[i],
                )
            &&& forall|address: int|
                !(at <= address < at + values_width(values, w.pointer_bytes, values.len()))
                    ==> #[trigger] (end.memory)(address) == (m.memory)(address)
        }),
{
    let pb = w.pointer_bytes;
    let after = all_stored(s, base, offset, values, align, pb)->0;
    let leaves = leaves_spec(ty, pb);
    lemma_stored(w, s, m, base, offset, values, align, values.len());
    let mid = run(w, after.steps, m)->0;
    lemma_widths_agree(values, leaves, pb, values.len());
    lemma_loaded(w, after, mid, base, offset, leaves, align, leaves.len());
    let found = loaded(after, Storage::Memory { base, offset }, ty, align, pb)->0;
    let first = Lowered { state: after, values };
    lemma_both(w, s, m, first, found);
    let end = outcome(w, m, found);
    assert forall|i: int| 0 <= i < values.len() implies amount(w, end, #[trigger] found.values[i])
        == amount(w, m, values[i]) by {
        lemma_lies_there(
            w,
            m,
            mid.memory,
            amount(w, m, base) + offset,
            values,
            values.len(),
            i,
        );
        lemma_widths_agree(values, leaves, pb, i as nat);
    }
}

/// The address of what lies in memory is where it lies.
pub proof fn law_addresses(w: World, s: LoweringView, m: Machine, base: Value, offset: u32)
    requires
        usual(w),
        m.values.len() == s.steps.len(),
        s.steps.len() < usize::MAX,
        defined(m, base),
        0 <= amount(w, m, base),
        room(w, amount(w, m, base) + offset, 0),
    ensures
        comes_to(
            w,
            s,
            m,
            addressed(s, Storage::Memory { base, offset }, w.pointer_bytes),
            ValueType::Ptr,
            address(w, m, Storage::Memory { base, offset }),
        ),
{
    lemma_along(w, s, m, base, offset);
}

proof fn lemma_assigned(
    w: World,
    s: LoweringView,
    m: Machine,
    given: Lowered,
    target: LoweringView,
    base: Value,
    offset: u32,
    align: u32,
    ty: ValueType,
    a: int,
)
    requires
        usual(w),
        m.values.len() == s.steps.len(),
        comes_to(w, s, m, Some(given), ty, a),
        bits_in(ty, w.pointer_bytes) == 8 * ty.width(w.pointer_bytes),
        fits(a, bits_in(ty, w.pointer_bytes)),
        runs(
            w,
            given.state,
            outcome(w, m, given),
            Lowered { state: target, values: given.values },
        ),
        ({
            let before = outcome(w, m, Lowered { state: target, values: given.values });
            &&& defined(before, base)
            &&& 0 <= amount(w, before, base)
            &&& room(w, amount(w, before, base) + offset, ty.width(w.pointer_bytes))
        }),
        target.steps.len() + 2 < usize::MAX,
        stored(target, base, offset, given.values, align, w.pointer_bytes, 1) is Some,
    ensures
        ({
            let done = Lowered {
                state: stored(target, base, offset, given.values, align, w.pointer_bytes, 1)->0,
                values: given.values,
            };
            let before = outcome(w, m, Lowered { state: target, values: given.values });
            let at = amount(w, before, base) + offset;
            let after = outcome(w, m, done).memory;
            &&& comes_to(w, s, m, Some(done), ty, a)
            &&& read(after, at, ty.width(w.pointer_bytes)) == a
            &&& forall|address: int|
                !(at <= address < at + ty.width(w.pointer_bytes)) ==> #[trigger] after(address)
                    == (before.memory)(address)
        }),
{
    let reached = Lowered { state: target, values: given.values };
    lemma_both(w, s, m, given, reached);
    let before = outcome(w, m, reached);
    let values = given.values;
    assert(held(w, target, before, values[0], a));
    reveal_with_fuel(values_width, 2);
    reveal_with_fuel(lie_at, 2);
    lemma_stored(w, target, before, base, offset, values, align, 1);
    let done = Lowered {
        state: stored(target, base, offset, values, align, w.pointer_bytes, 1)->0,
        values,
    };
    lemma_both(w, s, m, reached, done);
}

/// An assignment leaves its value where its target lies, and gives it.
pub proof fn law_assignments(
    w: World,
    frame: FrameView,
    s: LoweringView,
    m: Machine,
    node: MirExprNode,
    assignment: MirAssignment,
    ty: ValueType,
    a: int,
)
    requires
        w.pointer_bytes == frame.pb(),
        m.values.len() == s.steps.len(),
        node.kind == MirExpr::Assignment(assignment),
        comes_to(w, s, m, expr_lowered(frame, *assignment.value, s), ty, a),
        bits_in(ty, w.pointer_bytes) == 8 * ty.width(w.pointer_bytes),
        fits(a, bits_in(ty, w.pointer_bytes)),
        ({
            let given = expr_lowered(frame, *assignment.value, s)->0;
            let target = place_resolved(frame, assignment.target, given.state);
            let reached = Lowered { state: target->0.state, values: given.values };
            let before = outcome(w, m, reached);
            &&& target is Some
            &&& target->0.storage is Memory
            &&& runs(w, given.state, outcome(w, m, given), reached)
            &&& defined(before, target->0.storage->base)
            &&& 0 <= amount(w, before, target->0.storage->base)
            &&& room(w, address(w, before, target->0.storage), ty.width(w.pointer_bytes))
            &&& target->0.state.steps.len() + 2 < usize::MAX
        }),
        expr_lowered(frame, node, s) is Some,
    ensures
        comes_to(w, s, m, expr_lowered(frame, node, s), ty, a),
        ({
            let given = expr_lowered(frame, *assignment.value, s)->0;
            let target = place_resolved(frame, assignment.target, given.state)->0;
            let before = outcome(w, m, Lowered { state: target.state, values: given.values });
            let at = address(w, before, target.storage);
            let after = memory_after(w, m, expr_lowered(frame, node, s));
            &&& read(after, at, ty.width(w.pointer_bytes)) == a
            &&& forall|address: int|
                !(at <= address < at + ty.width(w.pointer_bytes)) ==> #[trigger] after(address)
                    == (before.memory)(address)
        }),
{
    let given = expr_lowered(frame, *assignment.value, s)->0;
    let target = place_resolved(frame, assignment.target, given.state)->0;
    let base = target.storage->base;
    let offset = target.storage->offset;
    let align = assignment.target.align;
    assert(assigned(frame, assignment, s) is Some);
    lemma_assigned(w, s, m, given, target.state, base, offset, align, ty, a);
}

/// Values handed to a call or a return are handed over in their order.
pub proof fn law_values_are_passed_in_order(s: LoweringView, values: Seq<Value>, n: nat)
    requires
        n <= values.len(),
    ensures
        passed(s, values, n).steps.len() == s.steps.len() + n,
        passed(s, values, n).steps.take(s.steps.len() as int) == s.steps,
        forall|i: int|
            0 <= i < n ==> (#[trigger] passed(s, values, n).steps[s.steps.len() + i]).op
                == Op::Pass(values[i]),
    decreases n,
{
    assert(s.steps.take(s.steps.len() as int) =~= s.steps);
    if n > 0 {
        law_values_are_passed_in_order(s, values, (n - 1) as nat);
        let before = passed(s, values, (n - 1) as nat);
        assert(passed(s, values, n).steps.take(s.steps.len() as int) =~= before.steps.take(
            s.steps.len() as int,
        ));
    }
}

/// A promoted argument is the number it was: as signed where it is signed, and
/// as unsigned where it is not.
pub proof fn law_promoted_arguments_keep_their_number(
    w: World,
    s: LoweringView,
    m: Machine,
    value: Value,
    ty: ResolvedType,
    pointer_bits: u32,
    from: NumericKind,
    to: NumericKind,
    a: int,
)
    requires
        m.values.len() == s.steps.len(),
        s.steps.len() < usize::MAX,
        kind_of(ty, pointer_bits) == Some(from),
        promoted(ty, pointer_bits) == Some(to),
        !(from is Float),
        of_kind(value.ty, from, w.pointer_bytes),
        held(w, s, m, value, a),
    ensures
        variadic_promoted(s, value, ty, pointer_bits) matches Some(found) && {
            &&& runs(w, s, m, found)
            &&& found.values.len() == 1
            &&& of_kind(found.values[0].ty, to, w.pointer_bytes)
            &&& number(amount(w, outcome(w, m, found), found.values[0]), to) == number(a, from)
        },
{
    vstd::arithmetic::power2::lemma2_to64();
    lemma_nothing(w, s, m, seq![value]);
    let start = s.having(value);
    let width = from.width() as nat;
    vstd::arithmetic::power2::lemma_pow2_strictly_increases(width, 32);
    if from is Signed {
        let op = Op::Convert { op: Convert::SignExtend, value };
        lemma_wrap_fits(signed(a, width), 32);
        law_numbers_read_back(signed(a, width), to);
        lemma_then(w, s, m, start, op, ValueType::I32, wrap(signed(a, width), 32));
    } else {
        let op = Op::Convert { op: Convert::ZeroExtend, value };
        lemma_wrap_small(a, 32);
        lemma_then(w, s, m, start, op, ValueType::I32, a);
    }
}

} // verus!
