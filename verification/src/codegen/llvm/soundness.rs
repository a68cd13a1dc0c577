//! What holds of every function that is lowered: an instruction uses only
//! parameters, constants and values that earlier instructions of its own block
//! defined, with the types they have, goes to memory only by pointers, and
//! names only slots, statements, data, tables, functions, variables and blocks
//! that there are.

use crate::codegen::constants::{moved, ObjectView};
use crate::codegen::llvm::{
    addressed, aligned_at, all_stored, index_ir, int_value, leaf_type, leaves_loaded, leaves_width,
    loaded, loaded_aligned, slot_of, spilled, stack_align, stored, values_width, FrameView, Lowered,
    LoweringView, Op, Operand, SlotData, SlotUse, StatementView, Step, Storage, Value, ValueType,
};
use crate::codegen::pool_laws::{
    grew, lemma_starts_with_all, lemma_starts_with_itself, lemma_starts_with_len, orderly,
    starts_with,
};
use crate::codegen::shared::{tabled, Vtable};
use crate::layout::{align_of, leaves_spec, size_of, Leaf};
use crate::resolved_type::ResolvedType;
use vstd::prelude::*;

verus! {

/// What a function can refer to besides what it defines.
pub struct Scope {
    pub frame: FrameView,
    pub params: Seq<ValueType>,
    pub blocks: nat,
}

/// Whether an instruction ends a block.
pub open spec fn ends(op: Op) -> bool {
    op is Branch || op is ConditionalBranch || op is Return || op is Unreachable
}

/// Whether an instruction neither begins nor ends a block.
pub open spec fn plain(op: Op) -> bool {
    !(op is Enter) && !ends(op)
}

/// Whether no block begins or ends from one position to another.
pub open spec fn within_block(steps: Seq<Step>, from: int, to: int) -> bool {
    forall|k: int| from <= k < to ==> plain((#[trigger] steps[k]).op)
}

/// Whether the steps from one position on are `n` blocks, each entered under
/// its number and ended by its last instruction only.
pub open spec fn shaped(steps: Seq<Step>, entry: int, n: nat) -> bool
    decreases n,
{
    if n == 0 {
        steps.len() == entry
    } else {
        exists|start: int|
            {
                &&& entry <= start < steps.len() - 1
                &&& (#[trigger] steps[start]).op == Op::Enter((n - 1) as usize)
                &&& within_block(steps, start + 1, steps.len() - 1)
                &&& ends(steps.last().op)
                &&& shaped(steps.take(start), entry, (n - 1) as nat)
            }
    }
}

/// Whether a value can be used, with its type: one that an instruction defines
/// only in the instruction's own block.
pub open spec fn has(c: Scope, s: LoweringView, value: Value) -> bool {
    match value.operand {
        Operand::Step(index) => {
            &&& index < s.steps.len()
            &&& s.steps[index as int].ty == Some(value.ty)
            &&& within_block(s.steps, index as int, s.steps.len() as int)
        },
        Operand::Param(index) => index < c.params.len() && c.params[index as int] == value.ty,
        Operand::Int(_) => value.ty.integral(),
        Operand::Float(_) => value.ty.floating(),
        Operand::IntAddress(_) => value.ty is Ptr,
        Operand::Null => value.ty is Ptr,
        Operand::Slot(index) => index < s.slots.len() && value.ty is Ptr,
        Operand::Data(index) => index < s.pool.len() && value.ty is Ptr,
        Operand::Vtable(index) => index < s.vtables.len() && value.ty is Ptr,
        Operand::Function(id) => c.frame.functions.contains(id) && value.ty is Ptr,
        Operand::Global(id) => c.frame.globals.contains(id) && value.ty is Ptr,
    }
}

/// Whether there is an address.
pub open spec fn at(c: Scope, s: LoweringView, value: Value) -> bool {
    has(c, s, value) && value.ty is Ptr
}

/// Whether the last `count` instructions hand values on.
pub open spec fn passed_last(s: LoweringView, count: usize) -> bool {
    &&& count <= s.steps.len()
    &&& forall|k: int|
        s.steps.len() - count <= k < s.steps.len() ==> (#[trigger] s.steps[k]).op is Pass
}

/// Whether an instruction is a call.
pub open spec fn is_call(s: LoweringView, call: usize) -> bool {
    call < s.steps.len() && s.steps[call as int].op is Call
}

/// Whether an instruction may come next.
pub open spec fn usable(c: Scope, s: LoweringView, op: Op) -> bool {
    match op {
        Op::Gep { base, offset } => {
            &&& at(c, s, base)
            &&& has(c, s, offset)
            &&& offset.ty.integral()
        },
        Op::Load { pointer, .. } => at(c, s, pointer),
        Op::Store { value, pointer, .. } => has(c, s, value) && at(c, s, pointer),
        Op::Binary { left, right, .. } => has(c, s, left) && has(c, s, right),
        Op::IntCompare { left, right, .. } => has(c, s, left) && has(c, s, right),
        Op::FloatCompare { left, right, .. } => has(c, s, left) && has(c, s, right),
        Op::IntNeg(value) => has(c, s, value),
        Op::FloatNeg(value) => has(c, s, value),
        Op::Not(value) => has(c, s, value),
        Op::Convert { value, .. } => has(c, s, value),
        Op::Pass(value) => has(c, s, value),
        Op::Call { callee, count, .. } => at(c, s, callee) && passed_last(s, count),
        Op::ExtractValue { call, .. } => is_call(s, call),
        Op::InlineCode { statement, count } => {
            &&& statement < s.statements.len()
            &&& passed_last(s, count)
        },
        Op::Enter(block) => block < c.blocks,
        Op::Branch(block) => block < c.blocks,
        Op::ConditionalBranch { condition, then_block, else_block } => {
            &&& has(c, s, condition)
            &&& condition.ty is I1
            &&& then_block < c.blocks
            &&& else_block < c.blocks
        },
        Op::Return { count } => passed_last(s, count),
        Op::Unreachable => true,
    }
}

/// What was there when an instruction was emitted.
pub open spec fn up_to(s: LoweringView, i: int) -> LoweringView {
    LoweringView { steps: s.steps.take(i), ..s }
}

/// Whether every instruction could come where it does.
#[verifier::opaque]
pub open spec fn sound(c: Scope, s: LoweringView) -> bool {
    forall|i: int| 0 <= i < s.steps.len() ==> usable(c, up_to(s, i), (#[trigger] s.steps[i]).op)
}

/// Whether a machine can number what a function holds.
pub open spec fn countable(s: LoweringView) -> bool {
    &&& s.steps.len() <= usize::MAX
    &&& s.slots.len() <= usize::MAX
    &&& s.statements.len() <= usize::MAX
    &&& s.pool.len() <= usize::MAX
    &&& s.vtables.len() <= usize::MAX
}

/// Whether a function is sound so far, its constant data orderly, and the
/// tables hold declared functions only.
pub open spec fn ok(c: Scope, s: LoweringView) -> bool {
    &&& orderly(s.pool)
    &&& tabled(c.frame.functions, s.vtables)
    &&& countable(s) ==> sound(c, s)
}

/// Whether a function only gained something.
#[verifier::opaque]
pub open spec fn grows(before: LoweringView, after: LoweringView) -> bool {
    &&& before.steps.len() <= after.steps.len()
    &&& forall|i: int| 0 <= i < before.steps.len() ==> #[trigger] after.steps[i] == before.steps[i]
    &&& before.slots.len() <= after.slots.len()
    &&& before.statements.len() <= after.statements.len()
    &&& starts_with(after.pool, before.pool)
    &&& before.vtables.len() <= after.vtables.len()
}

/// Whether a function only gained something, and that in the block that is
/// being lowered.
#[verifier::opaque]
pub open spec fn follows(before: LoweringView, after: LoweringView) -> bool {
    &&& grows(before, after)
    &&& within_block(after.steps, before.steps.len() as int, after.steps.len() as int)
}

/// Whether there are values.
pub open spec fn have_all(c: Scope, s: LoweringView, values: Seq<Value>) -> bool {
    forall|i: int| 0 <= i < values.len() ==> has(c, s, #[trigger] values[i])
}

/// Whether a step of lowering keeps a function sound.
pub open spec fn kept(c: Scope, before: LoweringView, after: LoweringView) -> bool {
    ok(c, after) && follows(before, after)
}

/// Whether a step of lowering keeps a function sound and there are its values.
pub open spec fn made(c: Scope, before: LoweringView, lowered: Lowered) -> bool {
    &&& kept(c, before, lowered.state)
    &&& countable(lowered.state) ==> have_all(c, lowered.state, lowered.values)
}

/// Whether a place's value is somewhere that exists.
pub open spec fn reachable(c: Scope, s: LoweringView, storage: Storage) -> bool {
    match storage {
        Storage::Values(values) => have_all(c, s, values),
        Storage::Memory { base, .. } => at(c, s, base),
    }
}

/// Whether a value can be used in every block.
pub open spec fn given(c: Scope, s: LoweringView, value: Value) -> bool {
    has(c, s, value) && !(value.operand is Step)
}

/// Whether values can be used in every block.
pub open spec fn all_given(c: Scope, s: LoweringView, values: Seq<Value>) -> bool {
    forall|i: int| 0 <= i < values.len() ==> given(c, s, #[trigger] values[i])
}

/// Whether what surrounds a function exists.
pub open spec fn rooted(c: Scope, s: LoweringView) -> bool {
    &&& at(c, s, c.frame.frame_slot)
    &&& given(c, s, c.frame.frame_slot)
    &&& forall|i: int|
        0 <= i < c.frame.local_args.len() ==> all_given(c, s, #[trigger] c.frame.local_args[i])
}

/// Whether a function can be lowered further.
pub open spec fn ready(c: Scope, s: LoweringView) -> bool {
    ok(c, s) && (countable(s) ==> rooted(c, s))
}

pub(crate) proof fn lemma_same(c: Scope, s: LoweringView)
    requires
        ok(c, s),
    ensures
        kept(c, s, s),
{
    reveal(follows);
    reveal(grows);
    lemma_starts_with_itself(s.pool);
}

pub(crate) proof fn lemma_then(a: LoweringView, b: LoweringView, d: LoweringView)
    requires
        follows(a, b),
        follows(b, d),
    ensures
        follows(a, d),
        countable(d) ==> countable(b),
        countable(b) ==> countable(a),
{
    reveal(follows);
    reveal(grows);
    lemma_starts_with_all(a.pool, b.pool, d.pool);
    lemma_starts_with_len(d.pool, b.pool);
    lemma_starts_with_len(b.pool, a.pool);
}

pub(crate) proof fn lemma_made_then(c: Scope, s: LoweringView, a: LoweringView, l: Lowered)
    requires
        kept(c, s, a),
        made(c, a, l),
    ensures
        made(c, s, l),
        countable(l.state) ==> countable(a),
        countable(a) ==> countable(s),
{
    lemma_then(s, a, l.state);
}

pub(crate) proof fn lemma_kept_then(c: Scope, s: LoweringView, a: LoweringView, b: LoweringView)
    requires
        kept(c, s, a),
        kept(c, a, b),
    ensures
        kept(c, s, b),
        countable(b) ==> countable(a),
        countable(a) ==> countable(s),
{
    lemma_then(s, a, b);
}

pub(crate) proof fn lemma_count(a: LoweringView, b: LoweringView)
    requires
        follows(a, b),
    ensures
        countable(b) ==> countable(a),
{
    reveal(follows);
    reveal(grows);
    lemma_starts_with_len(b.pool, a.pool);
}

pub(crate) proof fn lemma_has(c: Scope, a: LoweringView, b: LoweringView, value: Value)
    requires
        follows(a, b),
        has(c, a, value),
    ensures
        has(c, b, value),
{
    reveal(follows);
    reveal(grows);
    lemma_starts_with_len(b.pool, a.pool);
}

pub(crate) proof fn lemma_have(c: Scope, a: LoweringView, b: LoweringView, values: Seq<Value>)
    requires
        follows(a, b),
        have_all(c, a, values),
    ensures
        have_all(c, b, values),
{
    assert forall|i: int| 0 <= i < values.len() implies has(c, b, #[trigger] values[i]) by {
        lemma_has(c, a, b, values[i]);
    }
}

pub(crate) proof fn lemma_reachable(c: Scope, a: LoweringView, b: LoweringView, storage: Storage)
    requires
        follows(a, b),
        reachable(c, a, storage),
    ensures
        reachable(c, b, storage),
{
    match storage {
        Storage::Values(values) => {
            lemma_have(c, a, b, values);
        },
        Storage::Memory { base, .. } => {
            lemma_has(c, a, b, base);
        },
    }
}

pub(crate) proof fn lemma_grows(a: LoweringView, b: LoweringView)
    requires
        follows(a, b),
    ensures
        grows(a, b),
{
    reveal(follows);
}

pub(crate) proof fn lemma_grows_then(a: LoweringView, b: LoweringView, d: LoweringView)
    requires
        grows(a, b),
        grows(b, d),
    ensures
        grows(a, d),
{
    reveal(grows);
    lemma_starts_with_all(a.pool, b.pool, d.pool);
}

pub(crate) proof fn lemma_given(c: Scope, a: LoweringView, b: LoweringView, value: Value)
    requires
        grows(a, b),
        given(c, a, value),
    ensures
        given(c, b, value),
{
    reveal(grows);
    lemma_starts_with_len(b.pool, a.pool);
}

/// What surrounds a function stays where the function only gains something.
pub(crate) proof fn lemma_stays(c: Scope, s: LoweringView, a: LoweringView)
    requires
        ready(c, s),
        ok(c, a),
        grows(s, a),
    ensures
        ready(c, a),
        countable(a) ==> countable(s),
{
    assert(countable(a) ==> countable(s)) by {
        reveal(grows);
        lemma_starts_with_len(a.pool, s.pool);
    }
    if countable(a) {
        lemma_given(c, s, a, c.frame.frame_slot);
        assert forall|i: int| 0 <= i < c.frame.local_args.len() implies all_given(
            c,
            a,
            #[trigger] c.frame.local_args[i],
        ) by {
            let values = c.frame.local_args[i];
            assert(all_given(c, s, values));
            assert forall|k: int| 0 <= k < values.len() implies given(
                c,
                a,
                #[trigger] values[k],
            ) by {
                lemma_given(c, s, a, values[k]);
            }
        }
    }
}

pub(crate) proof fn lemma_ready(c: Scope, s: LoweringView, a: LoweringView)
    requires
        ready(c, s),
        kept(c, s, a),
    ensures
        ready(c, a),
        countable(a) ==> countable(s),
{
    lemma_grows(s, a);
    lemma_stays(c, s, a);
}

/// An instruction that may come next keeps a function sound, and only adds to
/// it.
pub(crate) proof fn lemma_step(c: Scope, s: LoweringView, op: Op, ty: Option<ValueType>)
    requires
        ok(c, s),
        countable(s.push(op, ty)) ==> usable(c, s, op),
    ensures
        ok(c, s.push(op, ty)),
        grows(s, s.push(op, ty)),
        countable(s.push(op, ty)) ==> countable(s),
{
    reveal(grows);
    reveal(sound);
    let after = s.push(op, ty);
    lemma_starts_with_itself(s.pool);
    if countable(after) {
        assert forall|i: int| 0 <= i < after.steps.len() implies usable(
            c,
            up_to(after, i),
            (#[trigger] after.steps[i]).op,
        ) by {
            if i < s.steps.len() {
                assert(usable(c, up_to(s, i), s.steps[i].op));
                assert(after.steps.take(i) =~= s.steps.take(i));
            } else {
                assert(after.steps.take(i) =~= s.steps);
            }
        }
    }
}

pub(crate) proof fn lemma_push(c: Scope, s: LoweringView, op: Op, ty: Option<ValueType>)
    requires
        ok(c, s),
        plain(op),
        countable(s.push(op, ty)) ==> usable(c, s, op),
    ensures
        kept(c, s, s.push(op, ty)),
        countable(s.push(op, ty)) ==> countable(s),
{
    reveal(follows);
    lemma_step(c, s, op, ty);
}

pub(crate) proof fn lemma_define(c: Scope, s: LoweringView, op: Op, ty: ValueType)
    requires
        ok(c, s),
        plain(op),
        countable(s.push(op, Some(ty))) ==> usable(c, s, op),
    ensures
        made(c, s, s.define(op, ty)),
        countable(s.push(op, Some(ty))) ==> has(c, s.push(op, Some(ty)), s.next(ty)),
        countable(s.push(op, Some(ty))) ==> countable(s),
{
    lemma_push(c, s, op, Some(ty));
}

pub(crate) proof fn lemma_having(c: Scope, s: LoweringView, value: Value)
    requires
        ok(c, s),
        countable(s) ==> has(c, s, value),
    ensures
        made(c, s, s.having(value)),
{
    lemma_same(c, s);
}

pub(crate) proof fn lemma_room_does_not_matter(c: Scope, s: LoweringView, t: LoweringView)
    requires
        s.steps == t.steps,
        s.slots.len() <= t.slots.len(),
        s.statements.len() <= t.statements.len(),
        s.pool.len() <= t.pool.len(),
        s.vtables.len() <= t.vtables.len(),
        sound(c, s),
    ensures
        sound(c, t),
{
    reveal(sound);
    assert forall|i: int| 0 <= i < t.steps.len() implies usable(
        c,
        up_to(t, i),
        (#[trigger] t.steps[i]).op,
    ) by {
        assert(usable(c, up_to(s, i), s.steps[i].op));
    }
}

pub(crate) proof fn lemma_slot(c: Scope, s: LoweringView, slot: SlotData)
    requires
        ok(c, s),
    ensures
        kept(c, s, s.with_slot(slot)),
        countable(s.with_slot(slot)) ==> at(c, s.with_slot(slot), s.next_slot()),
        countable(s.with_slot(slot)) ==> countable(s),
{
    reveal(follows);
    reveal(grows);
    let after = s.with_slot(slot);
    lemma_starts_with_itself(s.pool);
    if countable(after) {
        lemma_room_does_not_matter(c, s, after);
    }
}

pub(crate) proof fn lemma_pool(c: Scope, s: LoweringView, pool: Seq<ObjectView>)
    requires
        ok(c, s),
        grew(s.pool, pool),
    ensures
        kept(c, s, s.with_pool(pool)),
{
    reveal(follows);
    reveal(grows);
    let after = s.with_pool(pool);
    lemma_starts_with_len(pool, s.pool);
    if countable(after) {
        lemma_room_does_not_matter(c, s, after);
    }
}

pub(crate) proof fn lemma_table(c: Scope, s: LoweringView, table: Vtable)
    requires
        ok(c, s),
        forall|i: int|
            0 <= i < table.slots@.len() ==> c.frame.functions.contains(
                #[trigger] table.slots@[i],
            ),
    ensures
        kept(c, s, LoweringView { vtables: s.vtables.push(table), ..s }),
{
    reveal(follows);
    reveal(grows);
    reveal(tabled);
    let after = LoweringView { vtables: s.vtables.push(table), ..s };
    lemma_starts_with_itself(s.pool);
    if countable(after) {
        lemma_room_does_not_matter(c, s, after);
    }
}

pub(crate) proof fn lemma_statement(c: Scope, s: LoweringView, statement: StatementView)
    requires
        ok(c, s),
    ensures
        kept(c, s, LoweringView { statements: s.statements.push(statement), ..s }),
{
    reveal(follows);
    reveal(grows);
    let after = LoweringView { statements: s.statements.push(statement), ..s };
    lemma_starts_with_itself(s.pool);
    if countable(after) {
        lemma_room_does_not_matter(c, s, after);
    }
}

pub(crate) proof fn lemma_along(
    c: Scope,
    s: LoweringView,
    base: Value,
    offset: u32,
    pointer_bytes: u32,
)
    requires
        ok(c, s),
        countable(s) ==> at(c, s, base),
    ensures
        made(c, s, s.along(base, offset, pointer_bytes)),
        countable(s.along(base, offset, pointer_bytes).state) ==> at(
            c,
            s.along(base, offset, pointer_bytes).state,
            s.along(base, offset, pointer_bytes).values[0],
        ),
{
    lemma_define(
        c,
        s,
        Op::Gep { base, offset: int_value(index_ir(pointer_bytes), offset as u64) },
        ValueType::Ptr,
    );
}

pub(crate) proof fn lemma_stored(
    c: Scope,
    s: LoweringView,
    base: Value,
    offset: u32,
    values: Seq<Value>,
    align: u32,
    pointer_bytes: u32,
    n: nat,
)
    requires
        ok(c, s),
        n <= values.len(),
        countable(s) ==> at(c, s, base) && have_all(c, s, values),
        stored(s, base, offset, values, align, pointer_bytes, n) is Some,
    ensures
        kept(c, s, stored(s, base, offset, values, align, pointer_bytes, n)->0),
    decreases n,
{
    if n == 0 {
        lemma_same(c, s);
    } else {
        lemma_stored(c, s, base, offset, values, align, pointer_bytes, (n - 1) as nat);
        let before = stored(s, base, offset, values, align, pointer_bytes, (n - 1) as nat)->0;
        let place = moved(offset, values_width(values, pointer_bytes, (n - 1) as nat))->0;
        lemma_count(s, before);
        if countable(before) {
            lemma_has(c, s, before, base);
        }
        lemma_along(c, before, base, place, pointer_bytes);
        let pointer = before.along(base, place, pointer_bytes);
        lemma_kept_then(c, s, before, pointer.state);
        if countable(pointer.state) {
            lemma_has(c, s, pointer.state, values[n - 1]);
        }
        let op = Op::Store {
            value: values[n - 1],
            pointer: pointer.values[0],
            align: aligned_at(align, place),
        };
        lemma_push(c, pointer.state, op, None);
        lemma_kept_then(c, s, pointer.state, pointer.state.push(op, None));
    }
}

pub(crate) proof fn lemma_all_stored(
    c: Scope,
    s: LoweringView,
    base: Value,
    offset: u32,
    values: Seq<Value>,
    align: u32,
    pointer_bytes: u32,
)
    requires
        ok(c, s),
        countable(s) ==> at(c, s, base) && have_all(c, s, values),
        all_stored(s, base, offset, values, align, pointer_bytes) is Some,
    ensures
        kept(c, s, all_stored(s, base, offset, values, align, pointer_bytes)->0),
        countable(all_stored(s, base, offset, values, align, pointer_bytes)->0) ==> at(
            c,
            all_stored(s, base, offset, values, align, pointer_bytes)->0,
            base,
        ),
{
    lemma_stored(c, s, base, offset, values, align, pointer_bytes, values.len());
    let after = all_stored(s, base, offset, values, align, pointer_bytes)->0;
    lemma_count(s, after);
    if countable(after) {
        lemma_has(c, s, after, base);
    }
}

proof fn lemma_leaves_loaded(
    c: Scope,
    s: LoweringView,
    base: Value,
    offset: u32,
    leaves: Seq<Leaf>,
    align: u32,
    pointer_bytes: u32,
    n: nat,
)
    requires
        ok(c, s),
        countable(s) ==> at(c, s, base),
        leaves_loaded(s, base, offset, leaves, align, pointer_bytes, n) is Some,
    ensures
        made(c, s, leaves_loaded(s, base, offset, leaves, align, pointer_bytes, n)->0),
    decreases n,
{
    if n == 0 {
        lemma_same(c, s);
    } else {
        lemma_leaves_loaded(c, s, base, offset, leaves, align, pointer_bytes, (n - 1) as nat);
        let before = leaves_loaded(
            s,
            base,
            offset,
            leaves,
            align,
            pointer_bytes,
            (n - 1) as nat,
        )->0;
        let place = moved(offset, leaves_width(leaves, pointer_bytes, (n - 1) as nat))->0;
        lemma_count(s, before.state);
        if countable(before.state) {
            lemma_has(c, s, before.state, base);
        }
        lemma_along(c, before.state, base, place, pointer_bytes);
        let pointer = before.state.along(base, place, pointer_bytes);
        let op = Op::Load { pointer: pointer.values[0], align: aligned_at(align, place) };
        let ty = leaf_type(leaves[n - 1], pointer_bytes);
        lemma_define(c, pointer.state, op, ty);
        let after = pointer.state.push(op, Some(ty));
        lemma_kept_then(c, before.state, pointer.state, after);
        lemma_kept_then(c, s, before.state, after);
        if countable(after) {
            lemma_have(c, before.state, after, before.values);
        }
    }
}

pub(crate) proof fn lemma_loaded(
    c: Scope,
    s: LoweringView,
    storage: Storage,
    ty: ResolvedType,
    align: u32,
    pointer_bytes: u32,
)
    requires
        ok(c, s),
        countable(s) ==> reachable(c, s, storage),
        loaded(s, storage, ty, align, pointer_bytes) is Some,
    ensures
        made(c, s, loaded(s, storage, ty, align, pointer_bytes)->0),
{
    match storage {
        Storage::Values(_) => {
            lemma_same(c, s);
        },
        Storage::Memory { base, offset } => {
            let leaves = leaves_spec(ty, pointer_bytes);
            lemma_leaves_loaded(
                c,
                s,
                base,
                offset,
                leaves,
                align,
                pointer_bytes,
                leaves.len(),
            );
        },
    }
}

pub(crate) proof fn lemma_loaded_aligned(
    c: Scope,
    s: LoweringView,
    storage: Storage,
    ty: ResolvedType,
    pointer_bytes: u32,
)
    requires
        ok(c, s),
        countable(s) ==> reachable(c, s, storage),
        loaded_aligned(s, storage, ty, pointer_bytes) is Some,
    ensures
        made(c, s, loaded_aligned(s, storage, ty, pointer_bytes)->0),
{
    lemma_loaded(c, s, storage, ty, align_of(ty) as u32, pointer_bytes);
}

pub(crate) proof fn lemma_addressed(
    c: Scope,
    s: LoweringView,
    storage: Storage,
    pointer_bytes: u32,
)
    requires
        ok(c, s),
        countable(s) ==> reachable(c, s, storage),
        addressed(s, storage, pointer_bytes) is Some,
    ensures
        made(c, s, addressed(s, storage, pointer_bytes)->0),
        addressed(s, storage, pointer_bytes)->0.values.len() == 1,
        countable(addressed(s, storage, pointer_bytes)->0.state) ==> at(
            c,
            addressed(s, storage, pointer_bytes)->0.state,
            addressed(s, storage, pointer_bytes)->0.values[0],
        ),
{
    match storage {
        Storage::Values(values) => {
            let size = values_width(values, pointer_bytes, values.len());
            let data = slot_of(size, 16, SlotUse::ParamAddr);
            let slot = s.next_slot();
            let room = s.with_slot(data);
            lemma_slot(c, s, data);
            if countable(room) {
                lemma_have(c, s, room, values);
            }
            lemma_all_stored(c, room, slot, 0, values, 1, pointer_bytes);
            lemma_kept_then(
                c,
                s,
                room,
                all_stored(room, slot, 0, values, 1, pointer_bytes)->0,
            );
        },
        Storage::Memory { base, offset } => {
            lemma_along(c, s, base, offset, pointer_bytes);
        },
    }
}

pub(crate) proof fn lemma_spilled(
    c: Scope,
    s: LoweringView,
    values: Seq<Value>,
    ty: ResolvedType,
    purpose: SlotUse,
    pointer_bytes: u32,
)
    requires
        ok(c, s),
        countable(s) ==> have_all(c, s, values),
        spilled(s, values, ty, purpose, pointer_bytes) is Some,
    ensures
        ({
            let (after, storage) = spilled(s, values, ty, purpose, pointer_bytes)->0;
            kept(c, s, after) && (countable(after) ==> reachable(c, after, storage))
        }),
{
    let slot = s.next_slot();
    let data = slot_of(size_of(ty, pointer_bytes), stack_align(ty), purpose);
    let room = s.with_slot(data);
    lemma_slot(c, s, data);
    if countable(room) {
        lemma_have(c, s, room, values);
    }
    let align = align_of(ty) as u32;
    lemma_all_stored(c, room, slot, 0, values, align, pointer_bytes);
    lemma_kept_then(
        c,
        s,
        room,
        all_stored(room, slot, 0, values, align, pointer_bytes)->0,
    );
}

} // verus!
