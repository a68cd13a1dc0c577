//! What literals and constants come to.

use crate::codegen::constants::{place_of, pooled, text_object, KeyView};
use crate::codegen::cranelift::{
    leaf_ir, leaves_width, pointer_ir, FrameView, IrType, Lowered, LoweringView, Op,
};
use crate::codegen::cranelift::constant::{bytes_emitted, wrapped, zero_filled};
use crate::codegen::cranelift::evaluation::{
    begins, bits_in, data_at, held, lemma_begins_all, lemma_begins_itself, lemma_run_on,
    lemma_run_one, run, slot_at, World,
};
use crate::codegen::cranelift::expr::expr_lowered;
use crate::codegen::cranelift::expression_laws::{
    gives_two, lemma_nothing, lemma_pointers, lemma_then, outcome,
};
use crate::codegen::machine::{byte_of, continues, fits, lemma_wrap_small, value, Machine};
use crate::codegen::mir::{MirExpr, MirExprNode};
use crate::codegen::pool_laws::{countable, law_positions_lead_to_their_key};
use crate::layout::{leaves_spec, Leaf};
use crate::resolved_type::ConstValue;
use vstd::prelude::*;
use vstd::utf8::encode_utf8;

verus! {

/// A text is the address of its bytes, which the pool holds, and how many
/// bytes there are.
pub proof fn law_texts_are_their_bytes(
    w: World,
    frame: FrameView,
    s: LoweringView,
    m: Machine,
    node: MirExprNode,
    text: Seq<char>,
)
    requires
        m.values.len() == s.steps.len(),
        s.steps.len() + 2 < usize::MAX,
        match node.kind {
            MirExpr::Str(found) => text == found@,
            MirExpr::ByteString(found) => text == found@,
            _ => false,
        },
        encode_utf8(text).len() <= u32::MAX,
        countable(pooled(s.pool, text_object(text))),
        forall|index: usize| fits(#[trigger] data_at(w, index), 8 * frame.pb() as nat),
        expr_lowered(frame, node, s) is Some,
    ensures
        exists|index: usize|
            {
                let found = expr_lowered(frame, node, s)->0;
                &&& index < found.state.pool.len()
                &&& found.state.pool[index as int].key == KeyView::Text(encode_utf8(text))
                &&& gives_two(
                    w,
                    s,
                    m,
                    Some(found),
                    pointer_ir(frame.pb()),
                    #[trigger] data_at(w, index),
                    IrType::I32,
                    encode_utf8(text).len() as int,
                )
            },
{
    let pb = frame.pb();
    let ptr = pointer_ir(pb);
    let length = encode_utf8(text).len() as int;
    let pool = pooled(s.pool, text_object(text));
    let key = KeyView::Text(encode_utf8(text));
    lemma_pointers(frame);
    vstd::arithmetic::power2::lemma2_to64();
    assert(bytes_emitted(s, text, pb) == expr_lowered(frame, node, s));
    let index = place_of(pool, key)->0;
    law_positions_lead_to_their_key(pool, key);
    lemma_nothing(w, s, m, Seq::empty());
    let start = Lowered { state: s, values: Seq::<usize>::empty() };
    let count = Op::Iconst(wrapped(length as u64));
    lemma_wrap_small(length, 32);
    lemma_then(w, s, m, start, count, IrType::I32, length);
    let counted = s.define(count, IrType::I32);
    let ready = Lowered { state: counted.state.with_pool(pool), values: counted.values };
    assert(outcome(w, m, ready) == outcome(w, m, counted));
    assert(data_at(w, index) == data_at(w, index));
    lemma_then(w, s, m, ready, Op::DataAddr(index), ptr, data_at(w, index));
    let address = ready.state.define(Op::DataAddr(index), ptr);
    assert(held(ready.state, outcome(w, m, ready), counted.values[0], IrType::I32, length));
    assert(held(address.state, outcome(w, m, address), counted.values[0], IrType::I32, length));
    let found = expr_lowered(frame, node, s)->0;
    assert(found.state == address.state);
    assert(found.values =~= seq![address.values[0], counted.values[0]]);
    assert(outcome(w, m, found) == outcome(w, m, address));
}

/// A constant number, truth value, character or text is emitted as the
/// expression that spells it is.
pub proof fn law_constants_are_emitted_as_they_are_spelled(
    frame: FrameView,
    s: LoweringView,
    constant: MirExprNode,
    spelled: MirExprNode,
    value: ConstValue,
)
    requires
        constant.ty == spelled.ty,
        constant.kind matches MirExpr::Const(own) && *own == value,
        match value {
            ConstValue::Number(number) => spelled.kind == MirExpr::Number(number) && leaves_spec(
                spelled.ty,
                frame.pb(),
            ).len() > 0,
            ConstValue::Bool(flag) => spelled.kind == MirExpr::Bool(flag),
            ConstValue::Char(c) => spelled.kind == MirExpr::Char(c),
            ConstValue::Str(text) => spelled.kind matches MirExpr::Str(found) && found@ == text@,
            _ => false,
        },
    ensures
        expr_lowered(frame, constant, s) == expr_lowered(frame, spelled, s),
{
}

/// Storage that is cleared holds nothing but zeros, and nothing else is
/// touched.
pub proof fn law_cleared_storage_is_zero(
    w: World,
    s: LoweringView,
    m: Machine,
    leaves: Seq<Leaf>,
    slot: usize,
    start: u32,
    pointer_bytes: u32,
    n: nat,
)
    requires
        m.values.len() == s.steps.len(),
        n <= leaves.len(),
        s.steps.len() + 2 * n < usize::MAX,
        zero_filled(s, leaves, slot, start, pointer_bytes, n) is Some,
    ensures
        ({
            let after = zero_filled(s, leaves, slot, start, pointer_bytes, n)->0;
            let end = run(w, after.steps, m);
            let at = slot_at(w, slot) + start;
            &&& begins(after.steps, s.steps)
            &&& after.steps.len() == s.steps.len() + 2 * n
            &&& end is Some
            &&& end->0.values.len() == after.steps.len()
            &&& continues(m, end->0)
            &&& forall|address: int| #[trigger]
                (end->0.memory)(address) == if at <= address < at + leaves_width(
                    leaves,
                    pointer_bytes,
                    n,
                ) {
                    0
                } else {
                    (m.memory)(address)
                }
        }),
    decreases n,
{
    if n == 0 {
        lemma_begins_itself(s.steps);
    } else {
        law_cleared_storage_is_zero(w, s, m, leaves, slot, start, pointer_bytes, (n - 1) as nat);
        let before = zero_filled(s, leaves, slot, start, pointer_bytes, (n - 1) as nat)->0;
        let mid = run(w, before.steps, m)->0;
        let after = zero_filled(s, leaves, slot, start, pointer_bytes, n)->0;
        let ty = leaf_ir(leaves[n - 1], pointer_bytes);
        let along = leaves_width(leaves, pointer_bytes, (n - 1) as nat);
        let offset = crate::codegen::constants::moved(start, along)->0;
        let zero = before.push(Op::Iconst(0), Some(ty));
        vstd::arithmetic::power2::lemma_pow2_pos(bits_in(ty));
        lemma_wrap_small(0, bits_in(ty));
        lemma_run_one(w, before, mid, Op::Iconst(0), Some(ty));
        let ready = mid.having(0);
        let op = Op::StackStore { value: before.next(), slot, offset };
        lemma_run_one(w, zero, ready, op, None);
        lemma_run_on(w, zero.steps, after.steps, mid);
        lemma_begins_all(before.steps, zero.steps, after.steps);
        lemma_run_on(w, before.steps, after.steps, m);
        lemma_begins_all(s.steps, before.steps, after.steps);
        assert forall|k: nat| #[trigger] byte_of(0, k) == 0 by {
            vstd::arithmetic::power2::lemma_pow2_pos(8 * k);
            vstd::arithmetic::div_mod::lemma_div_of0(
                vstd::arithmetic::power2::pow2(8 * k) as int,
            );
        }
    }
}

} // verus!
