//! What calls are handed and hand back, and what literals come to.

use crate::checked::CastKind;
use crate::codegen::abi::{returned, returns_indirectly, ReturnView};
use crate::codegen::constants::{pooled, text_object, KeyView};
use crate::codegen::llvm::{
    index_ir, int_value, leaf_type, leaves_loaded, CallingConvention, FrameView, Lowered,
    LoweringView, Op, Operand, Step, Value, ValueType,
};
use crate::codegen::llvm::constant::bytes_emitted;
use crate::codegen::llvm::evaluation::{
    begins, bits_in, held, lemma_begins_all, lemma_begins_itself, World,
};
use crate::codegen::llvm::expr::expr_lowered;
use crate::codegen::llvm::expression_laws::{
    comes_to, comes_to_two, lemma_nothing, lemma_then, outcome,
};
use crate::codegen::llvm::memory_laws::law_values_are_passed_in_order;
use crate::codegen::llvm::scalar::{called, converted, extracted, passed};
use crate::codegen::machine::{lemma_wrap_fits, lemma_wrap_small, wrap, Machine};
use crate::codegen::mir::{MirExpr, MirExprNode};
use crate::codegen::pool_laws::{countable, law_positions_lead_to_their_key};
use crate::layout::{align_of, leaves_spec, Leaf};
use crate::resolved_type::{ConstValue, ResolvedFunctionType, ResolvedType};
use std::rc::Rc;
use vstd::prelude::*;
use vstd::utf8::encode_utf8;

verus! {

proof fn lemma_early(steps: Seq<Step>, start: Seq<Step>)
    requires
        begins(steps, start),
    ensures
        start.len() <= steps.len(),
        forall|i: int| 0 <= i < start.len() ==> #[trigger] steps[i] == start[i],
{
    assert forall|i: int| 0 <= i < start.len() implies #[trigger] steps[i] == start[i] by {
        assert(steps.take(start.len() as int)[i] == steps[i]);
    }
}

proof fn lemma_loading_begins(
    s: LoweringView,
    base: Value,
    offset: u32,
    leaves: Seq<Leaf>,
    align: u32,
    pointer_bytes: u32,
    n: nat,
)
    requires
        leaves_loaded(s, base, offset, leaves, align, pointer_bytes, n) is Some,
    ensures
        begins(
            leaves_loaded(s, base, offset, leaves, align, pointer_bytes, n)->0.state.steps,
            s.steps,
        ),
    decreases n,
{
    lemma_begins_itself(s.steps);
    if n > 0 {
        lemma_loading_begins(s, base, offset, leaves, align, pointer_bytes, (n - 1) as nat);
        let before = leaves_loaded(
            s,
            base,
            offset,
            leaves,
            align,
            pointer_bytes,
            (n - 1) as nat,
        )->0;
        let found = leaves_loaded(s, base, offset, leaves, align, pointer_bytes, n)->0;
        assert(found.state.steps.take(before.state.steps.len() as int) =~= before.state.steps);
        lemma_begins_all(s.steps, before.state.steps, found.state.steps);
    }
}

/// What a call hands back as several leaves is taken apart in its order.
pub proof fn law_results_come_in_order(
    s: LoweringView,
    call: usize,
    leaves: Seq<Leaf>,
    pointer_bytes: u32,
    n: nat,
)
    requires
        n <= leaves.len() <= usize::MAX,
        s.steps.len() + n <= usize::MAX,
    ensures
        ({
            let found = extracted(s, call, leaves, pointer_bytes, n);
            &&& begins(found.state.steps, s.steps)
            &&& found.state.steps.len() == s.steps.len() + n
            &&& found.values.len() == n
            &&& forall|i: int|
                0 <= i < n ==> {
                    &&& (#[trigger] found.values[i]).operand == Operand::Step(
                        (s.steps.len() + i) as usize,
                    )
                    &&& found.values[i].ty == leaf_type(leaves[i], pointer_bytes)
                    &&& found.state.steps[s.steps.len() + i].op == Op::ExtractValue {
                        call,
                        index: i as usize,
                    }
                }
        }),
    decreases n,
{
    lemma_begins_itself(s.steps);
    if n > 0 {
        law_results_come_in_order(s, call, leaves, pointer_bytes, (n - 1) as nat);
        let before = extracted(s, call, leaves, pointer_bytes, (n - 1) as nat);
        let found = extracted(s, call, leaves, pointer_bytes, n);
        assert(found.state.steps.take(s.steps.len() as int) =~= before.state.steps.take(
            s.steps.len() as int,
        ));
        assert forall|i: int| 0 <= i < n implies {
            &&& (#[trigger] found.values[i]).operand == Operand::Step(
                (s.steps.len() + i) as usize,
            )
            &&& found.values[i].ty == leaf_type(leaves[i], pointer_bytes)
            &&& found.state.steps[s.steps.len() + i].op == Op::ExtractValue {
                call,
                index: i as usize,
            }
        } by {
            if i < n - 1 {
                assert(found.values[i] == before.values[i]);
            }
        }
    }
}

/// A call calls its callee, and what stands right before it are its arguments
/// in their order. A result that comes back through memory has a slot of its
/// own, whose address is handed over before them.
pub proof fn law_calls_are_handed_their_arguments(
    s: LoweringView,
    callee: Value,
    fn_type: Rc<ResolvedFunctionType>,
    convention: Option<CallingConvention>,
    args: Seq<Value>,
    pointer_bytes: u32,
)
    requires
        s.steps.len() + args.len() + leaves_spec(*fn_type.return_type, pointer_bytes).len() + 4
            < usize::MAX,
        called(s, callee, fn_type, convention, args, pointer_bytes) is Some,
    ensures
        ({
            let found = called(s, callee, fn_type, convention, args, pointer_bytes)->0;
            let indirect = returns_indirectly(*fn_type.return_type, pointer_bytes);
            let hidden = if indirect {
                1int
            } else {
                0
            };
            let at = s.steps.len() + hidden + args.len();
            &&& at < found.state.steps.len()
            &&& found.state.steps[at].op == Op::Call {
                callee,
                fn_type,
                convention,
                count: (hidden + args.len()) as usize,
            }
            &&& forall|i: int|
                0 <= i < args.len() ==> found.state.steps[at - args.len() + i].op == Op::Pass(
                    #[trigger] args[i],
                )
            &&& indirect ==> found.state.steps[s.steps.len() as int].op == Op::Pass(
                s.next_slot(),
            )
        }),
{
    let ret: &ResolvedType = &*fn_type.return_type;
    let found = called(s, callee, fn_type, convention, args, pointer_bytes)->0;
    if returns_indirectly(*ret, pointer_bytes) {
        let slot = s.next_slot();
        let ready = s.with_slot(
            crate::codegen::llvm::slot_of(
                crate::layout::size_of(*ret, pointer_bytes),
                crate::codegen::llvm::stack_align(*ret),
                crate::codegen::llvm::SlotUse::Sret,
            ),
        );
        let all = seq![slot] + args;
        law_values_are_passed_in_order(ready, all, all.len());
        let handed = passed(ready, all, all.len());
        let done = handed.push(
            Op::Call { callee, fn_type, convention, count: all.len() as usize },
            None,
        );
        let leaves = leaves_spec(*ret, pointer_bytes);
        lemma_loading_begins(
            done,
            slot,
            0,
            leaves,
            align_of(*ret) as u32,
            pointer_bytes,
            leaves.len(),
        );
        lemma_early(found.state.steps, done.steps);
        assert(handed.steps[ready.steps.len() + 0int].op == Op::Pass(all[0]));
        assert forall|i: int| 0 <= i < args.len() implies found.state.steps[s.steps.len() + 1
            + i].op == Op::Pass(#[trigger] args[i]) by {
            let j = i + 1;
            assert(handed.steps[ready.steps.len() + j].op == Op::Pass(all[j]));
            assert(all[j] == args[i]);
        }
    } else {
        law_values_are_passed_in_order(s, args, args.len());
        let ready = passed(s, args, args.len());
        let op = Op::Call { callee, fn_type, convention, count: args.len() as usize };
        match returned(*ret, pointer_bytes) {
            ReturnView::Direct(leaves) => {
                law_results_come_in_order(
                    ready.push(op, None),
                    ready.steps.len() as usize,
                    leaves,
                    pointer_bytes,
                    leaves.len(),
                );
                if leaves.len() > 1 {
                    lemma_early(found.state.steps, ready.push(op, None).steps);
                }
            },
            _ => {},
        }
        assert forall|i: int| 0 <= i < args.len() implies found.state.steps[s.steps.len() + i].op
            == Op::Pass(#[trigger] args[i]) by {
            assert(ready.steps[s.steps.len() + i].op == Op::Pass(args[i]));
        }
    }
}

/// A constant number, truth value, character or text is emitted as the
/// expression that spells it is.
pub proof fn law_constants_are_emitted_as_they_are_spelled(
    frame: FrameView,
    s: LoweringView,
    constant: MirExprNode,
    spelled: MirExprNode,
    value: ConstValue,
)
    requires
        constant.ty == spelled.ty,
        constant.kind matches MirExpr::Const(own) && *own == value,
        match value {
            ConstValue::Number(number) => spelled.kind == MirExpr::Number(number) && leaves_spec(
                spelled.ty,
                frame.pb(),
            ).len() > 0,
            ConstValue::Bool(flag) => spelled.kind == MirExpr::Bool(flag),
            ConstValue::Char(c) => spelled.kind == MirExpr::Char(c),
            ConstValue::Str(text) => spelled.kind matches MirExpr::Str(found) && found@ == text@,
            _ => false,
        },
    ensures
        expr_lowered(frame, constant, s) == expr_lowered(frame, spelled, s),
{
}

/// A text is the address of its bytes, which the pool holds, and how many
/// bytes there are.
pub proof fn law_texts_are_their_bytes(
    frame: FrameView,
    s: LoweringView,
    node: MirExprNode,
    text: Seq<char>,
)
    requires
        match node.kind {
            MirExpr::Str(found) => text == found@,
            MirExpr::ByteString(found) => text == found@,
            _ => false,
        },
        countable(pooled(s.pool, text_object(text))),
        expr_lowered(frame, node, s) is Some,
    ensures
        ({
            let found = expr_lowered(frame, node, s)->0;
            &&& found.state.steps == s.steps
            &&& found.values.len() == 2
            &&& found.values[0].ty is Ptr
            &&& found.values[0].operand matches Operand::Data(index) && index
                < found.state.pool.len() && found.state.pool[index as int].key == KeyView::Text(
                encode_utf8(text),
            )
            &&& found.values[1] == int_value(ValueType::I32, encode_utf8(text).len() as u64)
        }),
{
    let pool = pooled(s.pool, text_object(text));
    let key = KeyView::Text(encode_utf8(text));
    assert(bytes_emitted(s, text) == expr_lowered(frame, node, s));
    law_positions_lead_to_their_key(pool, key);
}

/// A pointer to an array becomes a slice of as many elements; a slice becomes
/// the pointer it holds; and a spec object narrowed keeps its data and has a
/// table that starts further along, by as many entries as are left out.
pub proof fn law_wide_pointers(
    w: World,
    base: Lowered,
    m: Machine,
    kind: CastKind,
    source: ResolvedType,
    leaves: Seq<Leaf>,
    a: int,
    b: int,
)
    requires
        base.state.steps.len() < usize::MAX,
        m.values.len() == base.state.steps.len(),
        base.values.len() > 0,
        base.values[0].ty is Ptr,
        held(w, base.state, m, base.values[0], a),
        base.values.len() > 1 ==> base.values[1].ty is Ptr && held(
            w,
            base.state,
            m,
            base.values[1],
            b,
        ),
        w.pointer_bytes == 2 || w.pointer_bytes == 4 || w.pointer_bytes == 8,
    ensures
        kind is DropLength ==> comes_to(
            w,
            base.state,
            m,
            converted(base, kind, source, leaves, w.pointer_bytes),
            ValueType::Ptr,
            a,
        ),
        kind is Unsize ==> (source matches ResolvedType::Pointer { pointee, .. } ==> (
        *pointee matches ResolvedType::SizedArray(_, size) ==> comes_to_two(
            w,
            base.state,
            m,
            converted(base, kind, source, leaves, w.pointer_bytes),
            ValueType::Ptr,
            a,
            ValueType::I32,
            size as int,
        ))),
        kind matches CastKind::SpecNarrow { slot_offset } ==> (base.values.len() > 1 && slot_offset
            * w.pointer_bytes < 0x8000_0000 ==> comes_to_two(
            w,
            base.state,
            m,
            converted(base, kind, source, leaves, w.pointer_bytes),
            ValueType::Ptr,
            a,
            ValueType::Ptr,
            wrap(b + slot_offset * w.pointer_bytes, 8 * w.pointer_bytes as nat),
        )),
{
    let s = base.state;
    let pb = w.pointer_bytes;
    lemma_nothing(w, s, m, base.values);
    vstd::arithmetic::power2::lemma2_to64();
    vstd::arithmetic::power2::lemma2_to64_rest();
    match kind {
        CastKind::DropLength => {
            lemma_nothing(w, s, m, seq![base.values[0]]);
        },
        CastKind::Unsize => {
            if let ResolvedType::Pointer { pointee, .. } = source {
                if let ResolvedType::SizedArray(_, size) = *pointee {
                    lemma_wrap_small(size as int, 32);
                    lemma_nothing(
                        w,
                        s,
                        m,
                        seq![base.values[0], int_value(ValueType::I32, size as u64)],
                    );
                }
            }
        },
        CastKind::SpecNarrow { slot_offset } => {
            let by = slot_offset * pb;
            if base.values.len() > 1 && by < 0x8000_0000 {
                let width = bits_in(index_ir(pb), pb);
                lemma_wrap_small(by, width);
                lemma_wrap_fits(b + by, 8 * pb as nat);
                let op = Op::Gep {
                    base: base.values[1],
                    offset: int_value(index_ir(pb), by as u64),
                };
                lemma_then(w, s, m, base, op, ValueType::Ptr, wrap(b + by, 8 * pb as nat));
                let table = s.define(op, ValueType::Ptr);
                assert(held(w, table.state, outcome(w, m, table), base.values[0], a));
                let both = Lowered { values: seq![base.values[0], table.values[0]], ..table };
                assert(outcome(w, m, both) == outcome(w, m, table));
            }
        },
        _ => {},
    }
}

} // verus!
