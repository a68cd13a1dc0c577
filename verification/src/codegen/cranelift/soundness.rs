//! What holds of every function that is lowered: an instruction uses only
//! parameters and values that earlier instructions of its own block defined,
//! and only slots, data, tables, functions, variables, parameters and blocks
//! that there are.

use crate::codegen::constants::ObjectView;
use crate::codegen::cranelift::{
    addressed, leaf_ir, leaves_loaded, leaves_width, load_op, loaded, pointer_ir, slot_for, spilled,
    store_op, stored, values_width, Arith, FrameView, IrType, Lowered, LoweringView, Op, SlotData,
    Step, Storage,
};
use crate::codegen::pool_laws::{
    grew, lemma_starts_with_all, lemma_starts_with_itself, lemma_starts_with_len, orderly,
    starts_with,
};
use crate::codegen::shared::{tabled, Vtable};
use crate::layout::{leaves_spec, Leaf};
use crate::resolved_type::ResolvedType;
use vstd::prelude::*;

verus! {

/// What a function can refer to besides what it defines.
pub struct Scope {
    pub frame: FrameView,
    pub params: nat,
    pub blocks: nat,
}

/// Whether an instruction ends a block.
pub open spec fn ends(op: Op) -> bool {
    op is Jump || op is Brif || op is Return || op is Trap
}

/// Whether an instruction neither begins nor ends a block.
pub open spec fn plain(op: Op) -> bool {
    !(op is Enter) && !ends(op)
}

/// Whether no block begins or ends from one position to another.
pub open spec fn within_block(steps: Seq<Step>, from: int, to: int) -> bool {
    forall|k: int| from <= k < to ==> plain((#[trigger] steps[k]).op)
}

/// Whether the steps from one position on are `n` blocks, each entered under
/// its number and ended by its last instruction only.
pub open spec fn shaped(steps: Seq<Step>, entry: int, n: nat) -> bool
    decreases n,
{
    if n == 0 {
        steps.len() == entry
    } else {
        exists|start: int|
            {
                &&& entry <= start < steps.len() - 1
                &&& (#[trigger] steps[start]).op == Op::Enter((n - 1) as usize)
                &&& within_block(steps, start + 1, steps.len() - 1)
                &&& ends(steps.last().op)
                &&& shaped(steps.take(start), entry, (n - 1) as nat)
            }
    }
}

/// Whether a value is a parameter.
pub open spec fn given(s: LoweringView, value: usize) -> bool {
    s.type_of(value) is Some && s.steps[value as int].op is Param
}

/// Whether a value can be used: it is a parameter, or has been defined in the
/// block that is being lowered.
pub open spec fn has(s: LoweringView, value: usize) -> bool {
    ||| given(s, value)
    ||| s.type_of(value) is Some && within_block(s.steps, value as int, s.steps.len() as int)
}

/// Whether the last `count` instructions hand values on.
pub open spec fn passed_last(s: LoweringView, count: usize) -> bool {
    &&& count <= s.steps.len()
    &&& forall|k: int|
        s.steps.len() - count <= k < s.steps.len() ==> (#[trigger] s.steps[k]).op is Pass
}

/// Whether an instruction is a call.
pub open spec fn is_call(s: LoweringView, call: usize) -> bool {
    call < s.steps.len() && s.steps[call as int].op is CallIndirect
}

/// Whether an instruction may come next.
pub open spec fn usable(c: Scope, s: LoweringView, op: Op) -> bool {
    match op {
        Op::Param(position) => position < c.params,
        Op::Iconst(_) => true,
        Op::F32Const(_) => true,
        Op::F64Const(_) => true,
        Op::StackAddr { slot, .. } => slot < s.slots.len(),
        Op::StackLoad { slot, .. } => slot < s.slots.len(),
        Op::StackStore { value, slot, .. } => has(s, value) && slot < s.slots.len(),
        Op::Load { base, .. } => has(s, base),
        Op::Store { value, base, .. } => has(s, value) && has(s, base),
        Op::GlobalAddr(id) => c.frame.globals.contains(id),
        Op::DataAddr(position) => position < s.pool.len(),
        Op::VtableAddr(position) => position < s.vtables.len(),
        Op::FuncAddr(id) => c.frame.functions.contains(id),
        Op::Binary { left, right, .. } => has(s, left) && has(s, right),
        Op::Icmp { left, right, .. } => has(s, left) && has(s, right),
        Op::Fcmp { left, right, .. } => has(s, left) && has(s, right),
        Op::Ineg(value) => has(s, value),
        Op::Fneg(value) => has(s, value),
        Op::Bnot(value) => has(s, value),
        Op::IaddImm { value, .. } => has(s, value),
        Op::Convert { value, .. } => has(s, value),
        Op::Pass(value) => has(s, value),
        Op::CallIndirect { callee, count, .. } => has(s, callee) && passed_last(s, count),
        Op::CallResult { call, .. } => is_call(s, call),
        Op::Enter(block) => block < c.blocks,
        Op::Jump(block) => block < c.blocks,
        Op::Brif { condition, then_block, else_block } => {
            &&& has(s, condition)
            &&& then_block < c.blocks
            &&& else_block < c.blocks
        },
        Op::Return { count } => passed_last(s, count),
        Op::Trap => true,
    }
}

/// What was there when an instruction was emitted.
pub open spec fn up_to(s: LoweringView, i: int) -> LoweringView {
    LoweringView { steps: s.steps.take(i), ..s }
}

/// Whether every instruction could come where it does.
#[verifier::opaque]
pub open spec fn sound(c: Scope, s: LoweringView) -> bool {
    forall|i: int| 0 <= i < s.steps.len() ==> usable(c, up_to(s, i), (#[trigger] s.steps[i]).op)
}

/// Whether a machine can number what a function holds.
pub open spec fn countable(s: LoweringView) -> bool {
    &&& s.steps.len() <= usize::MAX
    &&& s.slots.len() <= usize::MAX
    &&& s.pool.len() <= usize::MAX
    &&& s.vtables.len() <= usize::MAX
}

/// Whether a function is sound so far, its constant data orderly, and the
/// tables hold declared functions only.
pub open spec fn ok(c: Scope, s: LoweringView) -> bool {
    &&& orderly(s.pool)
    &&& tabled(c.frame.functions, s.vtables)
    &&& countable(s) ==> sound(c, s)
}

/// Whether a function only gained something.
#[verifier::opaque]
pub open spec fn grows(before: LoweringView, after: LoweringView) -> bool {
    &&& before.steps.len() <= after.steps.len()
    &&& forall|i: int| 0 <= i < before.steps.len() ==> #[trigger] after.steps[i] == before.steps[i]
    &&& before.slots.len() <= after.slots.len()
    &&& starts_with(after.pool, before.pool)
    &&& before.vtables.len() <= after.vtables.len()
}

/// Whether a function only gained something, and that in the block that is
/// being lowered.
#[verifier::opaque]
pub open spec fn follows(before: LoweringView, after: LoweringView) -> bool {
    &&& grows(before, after)
    &&& within_block(after.steps, before.steps.len() as int, after.steps.len() as int)
}

/// Whether values have been defined.
pub open spec fn have_all(s: LoweringView, values: Seq<usize>) -> bool {
    forall|i: int| 0 <= i < values.len() ==> has(s, #[trigger] values[i])
}

/// Whether a step of lowering keeps a function sound.
pub open spec fn kept(c: Scope, before: LoweringView, after: LoweringView) -> bool {
    ok(c, after) && follows(before, after)
}

/// Whether a step of lowering keeps a function sound and its values are
/// defined.
pub open spec fn made(c: Scope, before: LoweringView, lowered: Lowered) -> bool {
    &&& kept(c, before, lowered.state)
    &&& countable(lowered.state) ==> have_all(lowered.state, lowered.values)
}

/// Whether a place's value is somewhere that exists.
pub open spec fn reachable(s: LoweringView, storage: Storage) -> bool {
    match storage {
        Storage::Values(values) => have_all(s, values),
        Storage::Slot { slot, .. } => slot < s.slots.len(),
        Storage::Address { base, .. } => has(s, base),
    }
}

/// Whether what surrounds a function exists.
pub open spec fn rooted(c: Scope, s: LoweringView) -> bool {
    &&& c.frame.frame_slot < s.slots.len()
    &&& forall|i: int|
        0 <= i < c.frame.local_args.len() ==> all_given(s, #[trigger] c.frame.local_args[i])
}

/// Whether values are parameters.
pub open spec fn all_given(s: LoweringView, values: Seq<usize>) -> bool {
    forall|i: int| 0 <= i < values.len() ==> given(s, #[trigger] values[i])
}

pub(crate) proof fn lemma_same(c: Scope, s: LoweringView)
    requires
        ok(c, s),
    ensures
        kept(c, s, s),
{
    reveal(follows);
    reveal(grows);
    lemma_starts_with_itself(s.pool);
}

pub(crate) proof fn lemma_then(a: LoweringView, b: LoweringView, d: LoweringView)
    requires
        follows(a, b),
        follows(b, d),
    ensures
        follows(a, d),
        countable(d) ==> countable(b),
        countable(b) ==> countable(a),
{
    reveal(follows);
    reveal(grows);
    lemma_starts_with_all(a.pool, b.pool, d.pool);
    lemma_starts_with_len(d.pool, b.pool);
    lemma_starts_with_len(b.pool, a.pool);
}

pub(crate) proof fn lemma_count(a: LoweringView, b: LoweringView)
    requires
        follows(a, b),
    ensures
        countable(b) ==> countable(a),
{
    reveal(follows);
    reveal(grows);
    lemma_starts_with_len(b.pool, a.pool);
}

pub(crate) proof fn lemma_has(a: LoweringView, b: LoweringView, value: usize)
    requires
        follows(a, b),
        has(a, value),
    ensures
        has(b, value),
{
    reveal(follows);
    reveal(grows);
}

pub(crate) proof fn lemma_have(a: LoweringView, b: LoweringView, values: Seq<usize>)
    requires
        follows(a, b),
        have_all(a, values),
    ensures
        have_all(b, values),
{
    assert forall|i: int| 0 <= i < values.len() implies has(b, #[trigger] values[i]) by {
        lemma_has(a, b, values[i]);
    }
}

pub(crate) proof fn lemma_reachable(a: LoweringView, b: LoweringView, storage: Storage)
    requires
        follows(a, b),
        reachable(a, storage),
    ensures
        reachable(b, storage),
{
    reveal(follows);
    reveal(grows);
    match storage {
        Storage::Values(values) => {
            lemma_have(a, b, values);
        },
        _ => {},
    }
}

pub(crate) proof fn lemma_rooted(c: Scope, a: LoweringView, b: LoweringView)
    requires
        grows(a, b),
        rooted(c, a),
    ensures
        rooted(c, b),
{
    reveal(grows);
    assert forall|i: int| 0 <= i < c.frame.local_args.len() implies all_given(
        b,
        #[trigger] c.frame.local_args[i],
    ) by {
        let values = c.frame.local_args[i];
        assert(all_given(a, values));
        assert forall|k: int| 0 <= k < values.len() implies given(b, #[trigger] values[k]) by {
            assert(given(a, values[k]));
        }
    }
}

pub(crate) proof fn lemma_grows(a: LoweringView, b: LoweringView)
    requires
        follows(a, b),
    ensures
        grows(a, b),
{
    reveal(follows);
}

pub(crate) proof fn lemma_grows_then(a: LoweringView, b: LoweringView, d: LoweringView)
    requires
        grows(a, b),
        grows(b, d),
    ensures
        grows(a, d),
        countable(d) ==> countable(b),
        countable(b) ==> countable(a),
{
    reveal(grows);
    lemma_starts_with_all(a.pool, b.pool, d.pool);
    lemma_starts_with_len(d.pool, b.pool);
    lemma_starts_with_len(b.pool, a.pool);
}

/// An instruction that may come next keeps a function sound, and only adds to
/// it.
pub(crate) proof fn lemma_step(c: Scope, s: LoweringView, op: Op, ty: Option<IrType>)
    requires
        ok(c, s),
        countable(s.push(op, ty)) ==> usable(c, s, op),
    ensures
        ok(c, s.push(op, ty)),
        grows(s, s.push(op, ty)),
        countable(s.push(op, ty)) ==> countable(s),
{
    reveal(grows);
    reveal(sound);
    let after = s.push(op, ty);
    lemma_starts_with_itself(s.pool);
    if countable(after) {
        assert forall|i: int| 0 <= i < after.steps.len() implies usable(
            c,
            up_to(after, i),
            (#[trigger] after.steps[i]).op,
        ) by {
            if i < s.steps.len() {
                assert(usable(c, up_to(s, i), s.steps[i].op));
                assert(after.steps.take(i) =~= s.steps.take(i));
            } else {
                assert(after.steps.take(i) =~= s.steps);
            }
        }
    }
}

pub(crate) proof fn lemma_push(c: Scope, s: LoweringView, op: Op, ty: Option<IrType>)
    requires
        ok(c, s),
        plain(op),
        countable(s.push(op, ty)) ==> usable(c, s, op),
    ensures
        kept(c, s, s.push(op, ty)),
        countable(s.push(op, ty)) ==> countable(s),
{
    reveal(follows);
    lemma_step(c, s, op, ty);
}

pub(crate) proof fn lemma_define(c: Scope, s: LoweringView, op: Op, ty: IrType)
    requires
        ok(c, s),
        plain(op),
        countable(s.push(op, Some(ty))) ==> usable(c, s, op),
    ensures
        made(c, s, s.define(op, ty)),
        countable(s.push(op, Some(ty))) ==> has(s.push(op, Some(ty)), s.next()),
        countable(s.push(op, Some(ty))) ==> countable(s),
{
    lemma_push(c, s, op, Some(ty));
}

pub(crate) proof fn lemma_define_like(c: Scope, s: LoweringView, op: Op, value: usize)
    requires
        ok(c, s),
        plain(op),
        s.define_like(op, value) is Some,
        countable(s) ==> usable(c, s, op),
    ensures
        made(c, s, s.define_like(op, value)->0),
{
    lemma_define(c, s, op, s.type_of(value)->0);
}

pub(crate) proof fn lemma_slots_do_not_matter(c: Scope, s: LoweringView, t: LoweringView)
    requires
        s.steps == t.steps,
        s.slots.len() <= t.slots.len(),
        s.pool.len() <= t.pool.len(),
        s.vtables.len() <= t.vtables.len(),
        sound(c, s),
    ensures
        sound(c, t),
{
    reveal(sound);
    assert forall|i: int| 0 <= i < t.steps.len() implies usable(
        c,
        up_to(t, i),
        (#[trigger] t.steps[i]).op,
    ) by {
        assert(usable(c, up_to(s, i), s.steps[i].op));
    }
}

pub(crate) proof fn lemma_slot(c: Scope, s: LoweringView, slot: SlotData)
    requires
        ok(c, s),
    ensures
        kept(c, s, s.with_slot(slot)),
        countable(s.with_slot(slot)) ==> s.next_slot() < s.with_slot(slot).slots.len(),
{
    reveal(follows);
    reveal(grows);
    let after = s.with_slot(slot);
    lemma_starts_with_itself(s.pool);
    if countable(after) {
        lemma_slots_do_not_matter(c, s, after);
    }
}

pub(crate) proof fn lemma_pool(c: Scope, s: LoweringView, pool: Seq<ObjectView>)
    requires
        ok(c, s),
        grew(s.pool, pool),
    ensures
        kept(c, s, s.with_pool(pool)),
{
    reveal(follows);
    reveal(grows);
    let after = s.with_pool(pool);
    lemma_starts_with_len(pool, s.pool);
    if countable(after) {
        lemma_slots_do_not_matter(c, s, after);
    }
}

pub(crate) proof fn lemma_table(c: Scope, s: LoweringView, table: Vtable)
    requires
        ok(c, s),
        forall|i: int|
            0 <= i < table.slots@.len() ==> c.frame.functions.contains(
                #[trigger] table.slots@[i],
            ),
    ensures
        kept(c, s, LoweringView { vtables: s.vtables.push(table), ..s }),
{
    reveal(follows);
    reveal(grows);
    reveal(tabled);
    let after = LoweringView { vtables: s.vtables.push(table), ..s };
    lemma_starts_with_itself(s.pool);
    if countable(after) {
        lemma_slots_do_not_matter(c, s, after);
    }
}

pub(crate) proof fn lemma_stored(
    c: Scope,
    s: LoweringView,
    storage: Storage,
    values: Seq<usize>,
    n: nat,
)
    requires
        ok(c, s),
        n <= values.len(),
        countable(s) ==> reachable(s, storage) && have_all(s, values),
        stored(s, storage, values, n) is Some,
    ensures
        kept(c, s, stored(s, storage, values, n)->0),
    decreases n,
{
    if n == 0 {
        lemma_same(c, s);
    } else {
        lemma_stored(c, s, storage, values, (n - 1) as nat);
        let before = stored(s, storage, values, (n - 1) as nat)->0;
        let at = values_width(s, values, (n - 1) as nat)->0;
        let op = store_op(storage, values[n - 1], at)->0;
        lemma_count(s, before);
        if countable(before) {
            lemma_has(s, before, values[n - 1]);
            lemma_reachable(s, before, storage);
        }
        lemma_push(c, before, op, None);
        lemma_then(s, before, before.push(op, None));
    }
}

pub(crate) proof fn lemma_leaves_loaded(
    c: Scope,
    s: LoweringView,
    storage: Storage,
    leaves: Seq<Leaf>,
    pointer_bytes: u32,
    n: nat,
)
    requires
        ok(c, s),
        countable(s) ==> reachable(s, storage),
        leaves_loaded(s, storage, leaves, pointer_bytes, n) is Some,
    ensures
        made(c, s, leaves_loaded(s, storage, leaves, pointer_bytes, n)->0),
    decreases n,
{
    if n == 0 {
        lemma_same(c, s);
    } else {
        lemma_leaves_loaded(c, s, storage, leaves, pointer_bytes, (n - 1) as nat);
        let before = leaves_loaded(s, storage, leaves, pointer_bytes, (n - 1) as nat)->0;
        let op = load_op(storage, leaves_width(leaves, pointer_bytes, (n - 1) as nat))->0;
        let ty = leaf_ir(leaves[n - 1], pointer_bytes);
        lemma_count(s, before.state);
        if countable(before.state) {
            lemma_reachable(s, before.state, storage);
        }
        lemma_define(c, before.state, op, ty);
        let after = before.state.push(op, Some(ty));
        lemma_then(s, before.state, after);
        if countable(after) {
            lemma_have(before.state, after, before.values);
        }
    }
}

pub(crate) proof fn lemma_loaded(
    c: Scope,
    s: LoweringView,
    storage: Storage,
    ty: ResolvedType,
    pointer_bytes: u32,
)
    requires
        ok(c, s),
        countable(s) ==> reachable(s, storage),
        loaded(s, storage, ty, pointer_bytes) is Some,
    ensures
        made(c, s, loaded(s, storage, ty, pointer_bytes)->0),
{
    match storage {
        Storage::Values(_) => {
            lemma_same(c, s);
        },
        _ => {
            let leaves = leaves_spec(ty, pointer_bytes);
            lemma_leaves_loaded(c, s, storage, leaves, pointer_bytes, leaves.len());
        },
    }
}

pub(crate) proof fn lemma_addressed(
    c: Scope,
    s: LoweringView,
    storage: Storage,
    pointer_bytes: u32,
)
    requires
        ok(c, s),
        countable(s) ==> reachable(s, storage),
        addressed(s, storage, pointer_bytes) is Some,
    ensures
        made(c, s, addressed(s, storage, pointer_bytes)->0),
{
    match storage {
        Storage::Values(values) => {
            let size = values_width(s, values, values.len())->0;
            let data = SlotData { size: size as u32, align_shift: 4 };
            let slot = s.next_slot();
            let room = s.with_slot(data);
            lemma_slot(c, s, data);
            lemma_count(s, room);
            if countable(room) {
                lemma_have(s, room, values);
            }
            lemma_stored(c, room, Storage::Slot { slot, offset: 0 }, values, values.len());
            let after = stored(
                room,
                Storage::Slot { slot, offset: 0 },
                values,
                values.len(),
            )->0;
            lemma_then(s, room, after);
            if countable(after) {
                lemma_reachable(room, after, Storage::Slot { slot, offset: 0 });
            }
            lemma_define(c, after, Op::StackAddr { slot, offset: 0 }, pointer_ir(pointer_bytes));
            lemma_then(
                s,
                after,
                after.push(Op::StackAddr { slot, offset: 0 }, Some(pointer_ir(pointer_bytes))),
            );
        },
        Storage::Slot { slot, offset } => {
            lemma_define(c, s, Op::StackAddr { slot, offset }, pointer_ir(pointer_bytes));
        },
        Storage::Address { base, offset } => if offset == 0 {
            lemma_same(c, s);
        } else {
            let by = Op::Iconst(offset as i64);
            let ty = pointer_ir(pointer_bytes);
            let along = s.push(by, Some(ty));
            lemma_define(c, s, by, ty);
            if countable(along) {
                lemma_has(s, along, base);
            }
            let op = Op::Binary { op: Arith::Iadd, left: base, right: s.next() };
            lemma_define_like(c, along, op, base);
            lemma_then(s, along, along.define_like(op, base)->0.state);
        },
    }
}

pub(crate) proof fn lemma_spilled(
    c: Scope,
    s: LoweringView,
    values: Seq<usize>,
    ty: ResolvedType,
    pointer_bytes: u32,
)
    requires
        ok(c, s),
        countable(s) ==> have_all(s, values),
        spilled(s, values, ty, pointer_bytes) is Some,
    ensures
        ({
            let (after, storage) = spilled(s, values, ty, pointer_bytes)->0;
            kept(c, s, after) && (countable(after) ==> reachable(after, storage))
        }),
{
    let storage = Storage::Slot { slot: s.next_slot(), offset: 0 };
    let data = slot_for(ty, pointer_bytes);
    let room = s.with_slot(data);
    lemma_slot(c, s, data);
    lemma_count(s, room);
    if countable(room) {
        lemma_have(s, room, values);
    }
    lemma_stored(c, room, storage, values, values.len());
    let after = stored(room, storage, values, values.len())->0;
    lemma_then(s, room, after);
    if countable(after) {
        lemma_reachable(room, after, storage);
    }
}

} // verus!
