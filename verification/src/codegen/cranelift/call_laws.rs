//! What calls are handed, and what they hand back.

use crate::codegen::abi::{promoted, returned, returns_indirectly, ReturnView};
use crate::codegen::cranelift::{
    leaf_ir, leaves_loaded, pointer_ir, slot_for, Convert, FrameView, IrType, Lowered, LoweringView,
    Op, Step, Storage,
};
use crate::codegen::cranelift::evaluation::{
    begins, held, lemma_begins_all, lemma_begins_itself, World,
};
use crate::codegen::cranelift::expr::{
    called, coerce_lowered, expr_lowered, flattened, passed, results, variadic_promoted,
};
use crate::codegen::cranelift::expression_laws::{lemma_nothing, lemma_then, outcome, runs};
use crate::codegen::cranelift::operation_laws::of_kind;
use crate::codegen::machine::{
    kind_of, law_numbers_read_back, lemma_wrap_fits, lemma_wrap_small, number, signed, value, wrap,
    Machine,
};
use crate::codegen::mir::MirSpecCoerce;
use crate::layout::{leaves_spec, Leaf};
use crate::resolved_type::{NumericKind, ResolvedFunctionType, ResolvedType};
use crate::search_laws::law_tables_are_found_again;
use std::rc::Rc;
use vstd::prelude::*;

verus! {

/// Values handed to a call or a return are handed over in their order.
pub proof fn law_values_are_passed_in_order(s: LoweringView, values: Seq<usize>, n: nat)
    requires
        n <= values.len(),
    ensures
        passed(s, values, n).steps.len() == s.steps.len() + n,
        begins(passed(s, values, n).steps, s.steps),
        forall|i: int|
            0 <= i < n ==> (#[trigger] passed(s, values, n).steps[s.steps.len() + i]).op
                == Op::Pass(values[i]),
    decreases n,
{
    lemma_begins_itself(s.steps);
    if n > 0 {
        law_values_are_passed_in_order(s, values, (n - 1) as nat);
        let before = passed(s, values, (n - 1) as nat);
        assert(passed(s, values, n).steps.take(s.steps.len() as int) =~= before.steps.take(
            s.steps.len() as int,
        ));
    }
}

proof fn lemma_loading_begins(
    s: LoweringView,
    storage: Storage,
    leaves: Seq<Leaf>,
    pointer_bytes: u32,
    n: nat,
)
    requires
        leaves_loaded(s, storage, leaves, pointer_bytes, n) is Some,
    ensures
        begins(leaves_loaded(s, storage, leaves, pointer_bytes, n)->0.state.steps, s.steps),
    decreases n,
{
    lemma_begins_itself(s.steps);
    if n > 0 {
        lemma_loading_begins(s, storage, leaves, pointer_bytes, (n - 1) as nat);
        let before = leaves_loaded(s, storage, leaves, pointer_bytes, (n - 1) as nat)->0;
        let found = leaves_loaded(s, storage, leaves, pointer_bytes, n)->0;
        assert(found.state.steps.take(before.state.steps.len() as int) =~= before.state.steps);
        lemma_begins_all(s.steps, before.state.steps, found.state.steps);
    }
}

/// What a call hands back is taken from it in its order.
pub proof fn law_results_come_in_order(
    s: LoweringView,
    call: usize,
    leaves: Seq<Leaf>,
    pointer_bytes: u32,
    n: nat,
)
    requires
        n <= leaves.len() <= usize::MAX,
        s.steps.len() + n <= usize::MAX,
    ensures
        ({
            let found = results(s, call, leaves, pointer_bytes, n);
            &&& begins(found.state.steps, s.steps)
            &&& found.state.steps.len() == s.steps.len() + n
            &&& found.values.len() == n
            &&& forall|i: int|
                0 <= i < n ==> {
                    let at = #[trigger] found.values[i];
                    &&& at == s.steps.len() + i
                    &&& found.state.steps[at as int] == Step {
                        op: Op::CallResult { call, index: i as usize },
                        ty: Some(leaf_ir(leaves[i], pointer_bytes)),
                    }
                }
        }),
    decreases n,
{
    lemma_begins_itself(s.steps);
    if n > 0 {
        law_results_come_in_order(s, call, leaves, pointer_bytes, (n - 1) as nat);
        let before = results(s, call, leaves, pointer_bytes, (n - 1) as nat);
        let found = results(s, call, leaves, pointer_bytes, n);
        assert(found.state.steps.take(s.steps.len() as int) =~= before.state.steps.take(
            s.steps.len() as int,
        ));
        assert forall|i: int| 0 <= i < n implies {
            let at = #[trigger] found.values[i];
            &&& at == s.steps.len() + i
            &&& found.state.steps[at as int] == Step {
                op: Op::CallResult { call, index: i as usize },
                ty: Some(leaf_ir(leaves[i], pointer_bytes)),
            }
        } by {
            if i < n - 1 {
                assert(found.values[i] == before.values[i]);
                assert(before.values[i] == s.steps.len() + i);
            }
        }
    }
}

/// Where a call stands among the instructions: behind what it is handed, and
/// behind the address of its result where that comes back through memory.
pub open spec fn call_at(
    s: LoweringView,
    fn_type: Rc<ResolvedFunctionType>,
    args: Seq<usize>,
    pointer_bytes: u32,
) -> int {
    s.steps.len() + args.len() + if returns_indirectly(*fn_type.return_type, pointer_bytes) {
        2int
    } else {
        0
    }
}

/// A call calls its callee, and what stands right before it are its arguments
/// in their order. A result that comes back through memory has a slot of its
/// own, whose address is handed over before them.
pub proof fn law_calls_are_handed_their_arguments(
    s: LoweringView,
    callee: usize,
    fn_type: Rc<ResolvedFunctionType>,
    args: Seq<usize>,
    pointer_bytes: u32,
)
    requires
        s.steps.len() + args.len() + leaves_spec(*fn_type.return_type, pointer_bytes).len() + 4
            < usize::MAX,
        s.slots.len() < usize::MAX,
        called(s, callee, fn_type, args, pointer_bytes) is Some,
    ensures
        ({
            let found = called(s, callee, fn_type, args, pointer_bytes)->0;
            let at = call_at(s, fn_type, args, pointer_bytes);
            let indirect = returns_indirectly(*fn_type.return_type, pointer_bytes);
            &&& at < found.state.steps.len()
            &&& found.state.steps[at].op == Op::CallIndirect {
                callee,
                fn_type,
                count: (args.len() + if indirect {
                    1int
                } else {
                    0
                }) as usize,
            }
            &&& forall|i: int|
                0 <= i < args.len() ==> found.state.steps[at - args.len() + i].op == Op::Pass(
                    #[trigger] args[i],
                )
            &&& indirect ==> {
                &&& found.state.slots == s.slots.push(
                    slot_for(*fn_type.return_type, pointer_bytes),
                )
                &&& found.state.steps[s.steps.len() as int].op == Op::StackAddr {
                    slot: s.slots.len() as usize,
                    offset: 0,
                }
                &&& found.state.steps[s.steps.len() as int + 1].op == Op::Pass(s.steps.len() as usize)
            }
        }),
{
    let ret: &ResolvedType = &*fn_type.return_type;
    let found = called(s, callee, fn_type, args, pointer_bytes)->0;
    let at = call_at(s, fn_type, args, pointer_bytes);
    if returns_indirectly(*ret, pointer_bytes) {
        let slot = s.next_slot();
        let address = s.with_slot(slot_for(*ret, pointer_bytes)).define(
            Op::StackAddr { slot, offset: 0 },
            pointer_ir(pointer_bytes),
        );
        let all = address.values + args;
        law_values_are_passed_in_order(address.state, all, all.len());
        let ready = passed(address.state, all, all.len());
        let done = ready.push(
            Op::CallIndirect { callee, fn_type, count: all.len() as usize },
            None,
        );
        let storage = Storage::Slot { slot, offset: 0 };
        let leaves = leaves_spec(*ret, pointer_bytes);
        lemma_loading_begins(done, storage, leaves, pointer_bytes, leaves.len());
        lemma_slots_stay(done, storage, leaves, pointer_bytes, leaves.len());
        lemma_passing_keeps_slots(address.state, all, all.len());
        lemma_early(found.state.steps, done.steps);
        lemma_early(ready.steps, address.state.steps);
        assert(done.steps[at].op == found.state.steps[at].op);
        assert(ready.steps[address.state.steps.len() + 0int].op == Op::Pass(all[0]));
        assert forall|i: int| 0 <= i < args.len() implies found.state.steps[at - args.len() + i].op
            == Op::Pass(#[trigger] args[i]) by {
            let j = i + 1;
            assert(ready.steps[address.state.steps.len() + j].op == Op::Pass(all[j]));
            assert(all[j] == args[i]);
        }
    } else {
        law_values_are_passed_in_order(s, args, args.len());
        let ready = passed(s, args, args.len());
        let done = ready.push(
            Op::CallIndirect { callee, fn_type, count: args.len() as usize },
            None,
        );
        match returned(*ret, pointer_bytes) {
            ReturnView::Direct(leaves) => {
                law_results_come_in_order(
                    done,
                    ready.next(),
                    leaves,
                    pointer_bytes,
                    leaves.len(),
                );
            },
            _ => {
                lemma_begins_itself(done.steps);
            },
        }
        lemma_early(found.state.steps, done.steps);
        assert forall|i: int| 0 <= i < args.len() implies found.state.steps[at - args.len() + i].op
            == Op::Pass(#[trigger] args[i]) by {
            assert(ready.steps[s.steps.len() + i].op == Op::Pass(args[i]));
        }
    }
}

proof fn lemma_early(steps: Seq<Step>, start: Seq<Step>)
    requires
        begins(steps, start),
    ensures
        start.len() <= steps.len(),
        forall|i: int| 0 <= i < start.len() ==> #[trigger] steps[i] == start[i],
{
    assert forall|i: int| 0 <= i < start.len() implies #[trigger] steps[i] == start[i] by {
        assert(steps.take(start.len() as int)[i] == steps[i]);
    }
}

proof fn lemma_slots_stay(
    s: LoweringView,
    storage: Storage,
    leaves: Seq<Leaf>,
    pointer_bytes: u32,
    n: nat,
)
    requires
        leaves_loaded(s, storage, leaves, pointer_bytes, n) is Some,
    ensures
        leaves_loaded(s, storage, leaves, pointer_bytes, n)->0.state.slots == s.slots,
    decreases n,
{
    if n > 0 {
        lemma_slots_stay(s, storage, leaves, pointer_bytes, (n - 1) as nat);
    }
}

proof fn lemma_passing_keeps_slots(s: LoweringView, values: Seq<usize>, n: nat)
    ensures
        passed(s, values, n).slots == s.slots,
    decreases n,
{
    if n > 0 {
        lemma_passing_keeps_slots(s, values, (n - 1) as nat);
    }
}

/// A promoted argument is the number it was: as signed where it is signed, and
/// as unsigned where it is not.
pub proof fn law_promoted_arguments_keep_their_number(
    w: World,
    s: LoweringView,
    m: Machine,
    index: usize,
    ir: IrType,
    ty: ResolvedType,
    pointer_bits: u32,
    from: NumericKind,
    to: NumericKind,
    a: int,
)
    requires
        m.values.len() == s.steps.len(),
        s.steps.len() < usize::MAX,
        kind_of(ty, pointer_bits) == Some(from),
        promoted(ty, pointer_bits) == Some(to),
        !(from is Float),
        of_kind(ir, from),
        held(s, m, index, ir, a),
    ensures
        ({
            let found = variadic_promoted(s, index, ty, pointer_bits);
            &&& runs(w, s, m, found)
            &&& found.values.len() == 1
            &&& found.state.type_of(found.values[0]) matches Some(wide) && of_kind(wide, to)
            &&& number(value(outcome(w, m, found), found.values[0]), to) == number(a, from)
        }),
{
    vstd::arithmetic::power2::lemma2_to64();
    lemma_nothing(w, s, m, seq![index]);
    let start = Lowered { state: s, values: seq![index] };
    let width = from.width() as nat;
    vstd::arithmetic::power2::lemma_pow2_strictly_increases(width, 32);
    if from is Signed {
        let op = Op::Convert { op: Convert::Sextend, value: index };
        lemma_wrap_fits(signed(a, width), 32);
        law_numbers_read_back(signed(a, width), to);
        lemma_then(w, s, m, start, op, IrType::I32, wrap(signed(a, width), 32));
    } else {
        let op = Op::Convert { op: Convert::Uextend, value: index };
        lemma_wrap_small(a, 32);
        lemma_then(w, s, m, start, op, IrType::I32, a);
    }
}

/// How many values the first `n` fields have.
pub open spec fn values_before(per_field: Seq<Option<Seq<usize>>>, n: nat) -> nat
    decreases n,
{
    if n == 0 {
        0
    } else {
        values_before(per_field, (n - 1) as nat) + per_field[n - 1]->0.len()
    }
}

/// The values of a struct are those of its fields, each behind the ones of the
/// fields before it, in whatever order the fields were written; and there are
/// none unless every field has been given some.
pub proof fn law_fields_stand_in_their_order(per_field: Seq<Option<Seq<usize>>>, n: nat, i: int)
    requires
        0 <= i < n <= per_field.len(),
    ensures
        flattened(per_field, n) is Some <==> forall|k: int|
            0 <= k < n ==> (#[trigger] per_field[k]) is Some,
        flattened(per_field, n) matches Some(values) ==> {
            let start = values_before(per_field, i as nat);
            let own = per_field[i]->0;
            &&& values.len() == values_before(per_field, n)
            &&& start + own.len() <= values.len()
            &&& values.subrange(start as int, (start + own.len()) as int) == own
        },
    decreases n,
{
    if i < n - 1 {
        law_fields_stand_in_their_order(per_field, (n - 1) as nat, i);
    } else if n > 1 {
        law_fields_stand_in_their_order(per_field, (n - 1) as nat, i - 1);
    } else {
        assert(flattened(per_field, 0) == Some(Seq::<usize>::empty()));
    }
    if let Some(values) = flattened(per_field, n) {
        let before = flattened(per_field, (n - 1) as nat)->0;
        let start = values_before(per_field, i as nat) as int;
        let own = per_field[i]->0;
        if i < n - 1 {
            assert(values.subrange(start, start + own.len()) =~= before.subrange(
                start,
                start + own.len(),
            ));
        } else {
            assert(values.subrange(start, start + own.len()) =~= own);
        }
    }
}

/// A spec object is the pointer it was made from, and the address of a table
/// that holds the methods it was made with.
pub proof fn law_spec_objects_have_their_table(
    frame: FrameView,
    coerce: MirSpecCoerce,
    ty: ResolvedType,
    s: LoweringView,
)
    requires
        coerce_lowered(frame, coerce, ty, s) is Some,
        expr_lowered(frame, *coerce.base, s)->0.state.steps.len() < usize::MAX,
        expr_lowered(frame, *coerce.base, s)->0.state.vtables.len() < usize::MAX,
    ensures
        ({
            let found = coerce_lowered(frame, coerce, ty, s)->0;
            let data = expr_lowered(frame, *coerce.base, s)->0;
            &&& found.values.len() == 2
            &&& found.values[0] == data.values[0]
            &&& found.values[1] < found.state.steps.len()
            &&& found.state.steps[found.values[1] as int].op matches Op::VtableAddr(index)
                && index < found.state.vtables.len()
                && found.state.vtables[index as int].slots@ == coerce.slots@
        }),
{
    let data = expr_lowered(frame, *coerce.base, s)->0;
    law_tables_are_found_again(data.state.vtables, coerce.slots@, 0);
}


} // verus!
