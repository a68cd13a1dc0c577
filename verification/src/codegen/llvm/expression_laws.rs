//! What the instructions of expressions and places compute, given what those
//! of their parts compute.

use crate::checked::CastKind;
use crate::codegen::llvm::{
    index_ir, int_value, leaf_type, Arith, Convert, FrameView, Lowered, LoweringView, Op, Storage,
    Value, ValueType,
};
use crate::codegen::llvm::evaluation::{
    amount, begins, bits_in, effect, held, is_floating, lemma_begins_all, lemma_begins_itself,
    lemma_run_on, lemma_run_one, run, World,
};
use crate::codegen::llvm::expr::{binary_lowered, cast_lowered, expr_lowered, fitted};
use crate::codegen::llvm::function::terminated;
use crate::codegen::llvm::operation_laws::{
    decides, in_width, is_word, law_conditions_say_whether_a_value_is_zero,
    law_integer_casts_keep_the_number, law_operators_compute, of_kind,
};
use crate::codegen::llvm::place::{
    element_address, field_storage, index_wide, projected, shifted, PlaceState,
};
use crate::codegen::llvm::scalar::{
    as_condition, converted, first_of, int_cast, operated, range_end, sliced,
};
use crate::codegen::machine::{
    fits, kind_of, lemma_wrap_fits, lemma_wrap_small, meaning, signed, truth, wrap, Machine,
};
use crate::codegen::mir::{MirBinaryOp, MirCast, MirExpr, MirExprNode, MirProjection, MirTerminator};
use crate::codegen::shared::operand_kind;
use crate::layout::{
    body_at, dynamic_at, field_parts, header_at, leaf_bytes, leaves_spec, plan_offset, plan_start,
    size_of,
};
use crate::layout_laws::law_fields_of_structs_stand_where_they_lie;
use crate::resolved_type::{NumericKind, ResolvedStructType, ResolvedType};
use std::rc::Rc;
use vstd::arithmetic::power2::pow2;
use vstd::prelude::*;

verus! {

/// Whether what was lowered from a state on can be run.
pub open spec fn runs(w: World, s: LoweringView, m: Machine, lowered: Lowered) -> bool {
    &&& begins(lowered.state.steps, s.steps)
    &&& run(w, lowered.state.steps, m) is Some
}

/// The machine once what was lowered has been run.
pub open spec fn outcome(w: World, m: Machine, lowered: Lowered) -> Machine {
    run(w, lowered.state.steps, m)->0
}

/// Whether running what was lowered comes to one value: its type and its bits.
pub open spec fn comes_to(
    w: World,
    s: LoweringView,
    m: Machine,
    lowered: Option<Lowered>,
    ty: ValueType,
    bits: int,
) -> bool {
    lowered matches Some(found) && {
        &&& runs(w, s, m, found)
        &&& found.values.len() == 1
        &&& found.values[0].ty == ty
        &&& held(w, found.state, outcome(w, m, found), found.values[0], bits)
    }
}

/// Whether running what was lowered comes to two values.
pub open spec fn comes_to_two(
    w: World,
    s: LoweringView,
    m: Machine,
    lowered: Option<Lowered>,
    first: ValueType,
    a: int,
    second: ValueType,
    b: int,
) -> bool {
    lowered matches Some(found) && {
        &&& runs(w, s, m, found)
        &&& found.values.len() == 2
        &&& found.values[0].ty == first
        &&& found.values[1].ty == second
        &&& held(w, found.state, outcome(w, m, found), found.values[0], a)
        &&& held(w, found.state, outcome(w, m, found), found.values[1], b)
    }
}

/// Memory once what was lowered has been run.
pub open spec fn memory_after(w: World, m: Machine, lowered: Option<Lowered>) -> spec_fn(
    int,
) -> int {
    outcome(w, m, lowered->0).memory
}

/// One more instruction, which defines something.
pub(crate) proof fn lemma_then(
    w: World,
    s: LoweringView,
    m: Machine,
    first: Lowered,
    op: Op,
    ty: ValueType,
    result: int,
)
    requires
        m.values.len() == s.steps.len(),
        runs(w, s, m, first),
        first.state.steps.len() < usize::MAX,
        effect(w, outcome(w, m, first), op, Some(ty)) == Some(
            outcome(w, m, first).having(result),
        ),
        !is_floating(ty) ==> fits(result, bits_in(ty, w.pointer_bytes)),
    ensures
        comes_to(w, s, m, Some(first.state.define(op, ty)), ty, result),
        outcome(w, m, first.state.define(op, ty)) == outcome(w, m, first).having(result),
        forall|v: Value, bits: int|
            held(w, first.state, outcome(w, m, first), v, bits) ==> #[trigger] held(
                w,
                first.state.define(op, ty).state,
                outcome(w, m, first.state.define(op, ty)),
                v,
                bits,
            ),
{
    let mid = outcome(w, m, first);
    let defined = first.state.define(op, ty);
    lemma_begins_itself(first.state.steps);
    lemma_run_on(w, first.state.steps, first.state.steps, m);
    lemma_run_one(w, first.state, mid, op, Some(ty));
    lemma_run_on(w, first.state.steps, defined.state.steps, m);
    lemma_begins_all(s.steps, first.state.steps, defined.state.steps);
}

/// What is lowered behind something else runs behind it.
pub(crate) proof fn lemma_both(
    w: World,
    s: LoweringView,
    m: Machine,
    first: Lowered,
    second: Lowered,
)
    requires
        m.values.len() == s.steps.len(),
        runs(w, s, m, first),
        runs(w, first.state, outcome(w, m, first), second),
    ensures
        runs(w, s, m, second),
        outcome(w, m, second) == outcome(w, outcome(w, m, first), second),
        outcome(w, m, first).values.len() == first.state.steps.len(),
        outcome(w, m, second).values.len() == second.state.steps.len(),
        forall|v: Value, bits: int|
            held(w, first.state, outcome(w, m, first), v, bits) ==> #[trigger] held(
                w,
                second.state,
                outcome(w, m, second),
                v,
                bits,
            ),
{
    let mid = outcome(w, m, first);
    lemma_run_on(w, first.state.steps, second.state.steps, m);
    lemma_begins_all(s.steps, first.state.steps, second.state.steps);
    lemma_begins_itself(second.state.steps);
    lemma_run_on(w, second.state.steps, second.state.steps, mid);
}

/// Where nothing is lowered, nothing is run.
pub(crate) proof fn lemma_nothing(w: World, s: LoweringView, m: Machine, values: Seq<Value>)
    requires
        m.values.len() == s.steps.len(),
    ensures
        runs(w, s, m, Lowered { state: s, values }),
        outcome(w, m, Lowered { state: s, values }) == m,
{
    lemma_begins_itself(s.steps);
}

/// Truth is one and falsehood zero, in a byte; a character is its code point;
/// and the size of a type is what the type is laid out in.
pub proof fn law_constants(
    w: World,
    frame: FrameView,
    s: LoweringView,
    m: Machine,
    node: MirExprNode,
)
    requires
        m.values.len() == s.steps.len(),
        w.pointer_bytes == frame.pb(),
    ensures
        node.kind matches MirExpr::Bool(flag) ==> comes_to(
            w,
            s,
            m,
            expr_lowered(frame, node, s),
            ValueType::I8,
            truth(flag),
        ) && memory_after(w, m, expr_lowered(frame, node, s)) == m.memory,
        node.kind matches MirExpr::Char(c) ==> comes_to(
            w,
            s,
            m,
            expr_lowered(frame, node, s),
            ValueType::I32,
            c as int,
        ) && memory_after(w, m, expr_lowered(frame, node, s)) == m.memory,
        node.kind matches MirExpr::Sizeof(ty) ==> (size_of(ty, frame.pb()) <= u32::MAX
            ==> comes_to(
            w,
            s,
            m,
            expr_lowered(frame, node, s),
            index_ir(frame.pb()),
            size_of(ty, frame.pb()) as int,
        ) && memory_after(w, m, expr_lowered(frame, node, s)) == m.memory),
{
    vstd::arithmetic::power2::lemma2_to64();
    vstd::arithmetic::power2::lemma2_to64_rest();
    match node.kind {
        MirExpr::Bool(flag) => {
            lemma_wrap_small(truth(flag), 8);
            lemma_nothing(w, s, m, expr_lowered(frame, node, s)->0.values);
        },
        MirExpr::Char(c) => {
            lemma_wrap_small(c as int, 32);
            lemma_nothing(w, s, m, expr_lowered(frame, node, s)->0.values);
        },
        MirExpr::Sizeof(ty) => {
            if size_of(ty, frame.pb()) <= u32::MAX {
                lemma_wrap_small(
                    size_of(ty, frame.pb()) as int,
                    bits_in(index_ir(frame.pb()), frame.pb()),
                );
                lemma_nothing(w, s, m, expr_lowered(frame, node, s)->0.values);
            }
        },
        _ => {},
    }
}

/// A negated number is the number's opposite, in as many bits; a negated float
/// is the float's.
pub proof fn law_negation(
    w: World,
    frame: FrameView,
    s: LoweringView,
    m: Machine,
    node: MirExprNode,
    kind: NumericKind,
    ty: ValueType,
    a: int,
)
    requires
        m.values.len() == s.steps.len(),
        w.pointer_bytes == frame.pb(),
        node.kind matches MirExpr::Negate(base) && {
            &&& kind_of(base.ty, (8 * frame.pb()) as u32) == Some(kind)
            &&& comes_to(w, s, m, expr_lowered(frame, *base, s), ty, a)
            &&& expr_lowered(frame, *base, s)->0.state.steps.len() < usize::MAX
        },
        of_kind(ty, kind, w.pointer_bytes),
    ensures
        comes_to(
            w,
            s,
            m,
            expr_lowered(frame, node, s),
            ty,
            if kind is Float {
                (w.floats.negated)(kind.width() as nat, a)
            } else {
                wrap(-a, kind.width() as nat)
            },
        ),
        memory_after(w, m, expr_lowered(frame, node, s)) == memory_after(
            w,
            m,
            expr_lowered(frame, *node.kind->Negate_0, s),
        ),
{
    let base = node.kind->Negate_0;
    let first = expr_lowered(frame, *base, s)->0;
    assert(first_of(Some(first))->0.values =~= first.values);
    lemma_wrap_fits(-a, kind.width() as nat);
    let of = first.values[0];
    if kind is Float {
        let result = (w.floats.negated)(kind.width() as nat, a);
        lemma_then(w, s, m, first, Op::FloatNeg(of), ty, result);
    } else {
        lemma_then(w, s, m, first, Op::IntNeg(of), ty, wrap(-a, kind.width() as nat));
    }
}

/// Every bit of a complemented number is the other one: a number and its
/// complement make up all ones.
pub proof fn law_complement(
    w: World,
    frame: FrameView,
    s: LoweringView,
    m: Machine,
    node: MirExprNode,
    ty: ValueType,
    a: int,
)
    requires
        m.values.len() == s.steps.len(),
        node.kind matches MirExpr::BitNot(base) && {
            &&& comes_to(w, s, m, expr_lowered(frame, *base, s), ty, a)
            &&& expr_lowered(frame, *base, s)->0.state.steps.len() < usize::MAX
        },
        ty.integral(),
    ensures
        comes_to(
            w,
            s,
            m,
            expr_lowered(frame, node, s),
            ty,
            pow2(bits_in(ty, w.pointer_bytes)) - 1 - a,
        ),
        memory_after(w, m, expr_lowered(frame, node, s)) == memory_after(
            w,
            m,
            expr_lowered(frame, *node.kind->BitNot_0, s),
        ),
{
    let base = node.kind->BitNot_0;
    let first = expr_lowered(frame, *base, s)->0;
    assert(first_of(Some(first))->0.values =~= first.values);
    let width = bits_in(ty, w.pointer_bytes);
    crate::codegen::machine::lemma_wrap_shift(-1 - a, 1, width);
    lemma_wrap_small(pow2(width) - 1 - a, width);
    lemma_then(w, s, m, first, Op::Not(first.values[0]), ty, pow2(width) - 1 - a);
}

/// An operator's operands are evaluated from left to right, and the result is
/// what the operator means for what they gave.
pub proof fn law_operators(
    w: World,
    frame: FrameView,
    s: LoweringView,
    m: Machine,
    node: MirExprNode,
    binary: MirBinaryOp,
    kind: NumericKind,
    ty: ValueType,
    a: int,
    b: int,
)
    requires
        m.values.len() == s.steps.len(),
        w.pointer_bytes == frame.pb(),
        node.kind == MirExpr::BinaryOp(binary),
        kind_of(binary.left.ty, (8 * frame.pb()) as u32) == Some(kind),
        node.ty == if decides(binary.op) {
            ResolvedType::Bool
        } else {
            binary.left.ty
        },
        of_kind(ty, kind, w.pointer_bytes),
        comes_to(w, s, m, expr_lowered(frame, *binary.left, s), ty, a),
        ({
            let left = expr_lowered(frame, *binary.left, s)->0;
            let right = expr_lowered(frame, *binary.right, left.state);
            &&& comes_to(w, left.state, outcome(w, m, left), right, ty, b)
            &&& right->0.state.steps.len() + 2 < usize::MAX
        }),
        meaning(w.floats, binary.op, kind, a, b) is Some,
    ensures
        comes_to(
            w,
            s,
            m,
            expr_lowered(frame, node, s),
            if decides(binary.op) {
                ValueType::I8
            } else {
                ty
            },
            meaning(w.floats, binary.op, kind, a, b)->0,
        ),
{
    let pb = frame.pb();
    let left = expr_lowered(frame, *binary.left, s)->0;
    let right = expr_lowered(frame, *binary.right, left.state)->0;
    assert(first_of(Some(left))->0.values =~= left.values);
    assert(first_of(Some(right))->0.values =~= right.values);
    lemma_both(w, s, m, left, right);
    let mid = outcome(w, m, right);
    assert(held(w, right.state, mid, left.values[0], a));
    law_operators_compute(
        w,
        right.state,
        mid,
        binary.op,
        kind,
        left.values[0],
        right.values[0],
        a,
        b,
    );
    let result = operated(
        right.state,
        binary.op,
        kind,
        left.values[0],
        right.values[0],
        pb,
    )->0;
    lemma_both(w, s, m, right, result);
    lemma_leaf_of_kind(node.ty, pb);
    lemma_leaf_of_kind(binary.left.ty, pb);
    let wanted = leaf_type(leaves_spec(node.ty, pb)[0], pb);
    assert(wanted == result.values[0].ty);
    assert(fitted(Some(result), node.ty, pb)->0.values =~= result.values);
    assert(fitted(Some(result), node.ty, pb) == Some(result));
    assert(operand_kind(binary.left.ty, (frame.pb() * 8) as u32) == Some(kind));
    assert(binary_lowered(frame, binary, node.ty, s) == Some(result));
}

/// Numbers of a type have one leaf, of the type's kind.
proof fn lemma_leaf_of_kind(ty: ResolvedType, pointer_bytes: u32)
    requires
        kind_of(ty, (8 * pointer_bytes) as u32) is Some,
        pointer_bytes == 2 || pointer_bytes == 4 || pointer_bytes == 8,
    ensures
        leaves_spec(ty, pointer_bytes).len() == 1,
        of_kind(
            leaf_type(leaves_spec(ty, pointer_bytes)[0], pointer_bytes),
            kind_of(ty, (8 * pointer_bytes) as u32)->0,
            pointer_bytes,
        ),
{
}

/// A cast between integers keeps the number where there is room for it, read as
/// the cast says, and the low bits where there is not.
pub proof fn law_integer_casts(
    w: World,
    frame: FrameView,
    s: LoweringView,
    m: Machine,
    node: MirExprNode,
    cast: MirCast,
    from: ValueType,
    kind: NumericKind,
    a: int,
)
    requires
        m.values.len() == s.steps.len(),
        w.pointer_bytes == frame.pb(),
        node.kind == MirExpr::Cast(cast),
        kind_of(cast.target_type, (8 * frame.pb()) as u32) == Some(kind),
        !(kind is Float),
        cast.kind is IntExtend || cast.kind is IntTruncate,
        is_word(from),
        comes_to(w, s, m, expr_lowered(frame, *cast.base, s), from, a),
        expr_lowered(frame, *cast.base, s)->0.state.steps.len() < usize::MAX,
    ensures
        expr_lowered(frame, node, s) matches Some(found) && {
            &&& runs(w, s, m, found)
            &&& found.values.len() == 1
            &&& of_kind(found.values[0].ty, kind, w.pointer_bytes)
            &&& held(
                w,
                found.state,
                outcome(w, m, found),
                found.values[0],
                in_width(
                    a,
                    bits_in(from, w.pointer_bytes),
                    kind.width() as nat,
                    cast.kind == CastKind::IntExtend { signed: true },
                ),
            )
        },
{
    let pb = frame.pb();
    let base = expr_lowered(frame, *cast.base, s)->0;
    lemma_leaf_of_kind(cast.target_type, pb);
    let leaves = leaves_spec(cast.target_type, pb);
    let to = leaf_type(leaves[0], pb);
    let is_signed = cast.kind == CastKind::IntExtend { signed: true };
    assert(is_word(to));
    lemma_begins_itself(base.state.steps);
    lemma_run_on(w, base.state.steps, base.state.steps, m);
    let mid = outcome(w, m, base);
    law_integer_casts_keep_the_number(w, base.state, mid, base.values[0], to, is_signed, a);
    let result = int_cast(base.state, base.values[0], to, is_signed, pb)->0;
    assert(converted(base, cast.kind, cast.base.ty, leaves, pb) == Some(result));
    lemma_both(w, s, m, base, result);
    assert(cast_lowered(frame, cast, s) == Some(result));
}

/// The address of an element is that of the first one, and as many elements
/// further as the index says.
pub proof fn law_element_addresses(
    w: World,
    s: LoweringView,
    m: Machine,
    base: Value,
    index: Value,
    size: nat,
    a: int,
    i: int,
)
    requires
        s.steps.len() + 3 < usize::MAX,
        m.values.len() == s.steps.len(),
        base.ty is Ptr,
        index.ty.integral(),
        held(w, s, m, base, a),
        held(w, s, m, index, i),
        w.pointer_bytes == 2 || w.pointer_bytes == 4 || w.pointer_bytes == 8,
        fits(i, bits_in(index_ir(w.pointer_bytes), w.pointer_bytes)),
        size <= u32::MAX,
        2 * (i * size) < pow2(bits_in(index_ir(w.pointer_bytes), w.pointer_bytes)),
    ensures
        comes_to(
            w,
            s,
            m,
            element_address(s, base, index, size, w.pointer_bytes),
            ValueType::Ptr,
            wrap(a + i * size, 8 * w.pointer_bytes as nat),
        ),
        memory_after(w, m, element_address(s, base, index, size, w.pointer_bytes)) == m.memory,
{
    let pb = w.pointer_bytes;
    let ty = index_ir(pb);
    let width = bits_in(ty, pb);
    vstd::arithmetic::power2::lemma2_to64();
    vstd::arithmetic::power2::lemma2_to64_rest();
    lemma_nothing(w, s, m, seq![index]);
    let start = s.having(index);
    let wide = index_wide(s, index, pb);
    if index.ty != ty {
        lemma_wrap_small(i, width);
        let op = Op::Convert { op: Convert::ZeroExtend, value: index };
        lemma_then(w, s, m, start, op, ty, i);
    }
    assert(comes_to(w, s, m, Some(wide), ty, i));
    assert(held(w, wide.state, outcome(w, m, wide), base, a));
    lemma_wrap_small(size as int, width);
    assert(0 <= i * size) by (nonlinear_arith)
        requires
            0 <= i,
            0 <= size,
    ;
    lemma_wrap_small(i * size, width);
    let along_op = Op::Binary {
        op: Arith::IntMul,
        left: wide.values[0],
        right: int_value(ty, size as u64),
    };
    lemma_then(w, s, m, wide, along_op, ty, i * size);
    let along = wide.state.define(along_op, ty);
    assert(held(w, along.state, outcome(w, m, along), base, a));
    let sum_op = Op::Gep { base, offset: along.values[0] };
    lemma_wrap_fits(a + i * size, 8 * pb as nat);
    lemma_then(w, s, m, along, sum_op, ValueType::Ptr, wrap(a + i * size, 8 * pb as nat));
}

/// Part of a sequence starts as many elements behind the first as its start
/// says, and is as long as its end is behind its start.
pub proof fn law_slices(
    w: World,
    s: LoweringView,
    m: Machine,
    data: Value,
    start: Value,
    end: Value,
    size: nat,
    a: int,
    x: int,
    y: int,
)
    requires
        s.steps.len() + 4 < usize::MAX,
        m.values.len() == s.steps.len(),
        data.ty is Ptr,
        start.ty is I32,
        end.ty is I32,
        held(w, s, m, data, a),
        held(w, s, m, start, x),
        held(w, s, m, end, y),
        w.pointer_bytes == 2 || w.pointer_bytes == 4 || w.pointer_bytes == 8,
        size <= u32::MAX,
        2 * (x * size) < pow2(bits_in(index_ir(w.pointer_bytes), w.pointer_bytes)),
    ensures
        comes_to_two(
            w,
            s,
            m,
            sliced(s, data, start, end, size, w.pointer_bytes),
            ValueType::Ptr,
            wrap(a + x * size, 8 * w.pointer_bytes as nat),
            ValueType::I32,
            wrap(y - x, 32),
        ),
{
    vstd::arithmetic::power2::lemma2_to64();
    vstd::arithmetic::power2::lemma2_to64_rest();
    let pb = w.pointer_bytes;
    law_element_addresses(w, s, m, data, start, size, a, x);
    let pointer = element_address(s, data, start, size, pb)->0;
    lemma_nothing(w, s, m, seq![data]);
    lemma_both(w, s, m, s.having(data), pointer);
    assert(held(w, pointer.state, outcome(w, m, pointer), start, x));
    assert(held(w, pointer.state, outcome(w, m, pointer), end, y));
    let op = Op::Binary { op: Arith::IntSub, left: end, right: start };
    lemma_wrap_fits(y - x, 32);
    lemma_then(w, s, m, pointer, op, ValueType::I32, wrap(y - x, 32));
    let length = pointer.state.define(op, ValueType::I32);
    assert(held(
        w,
        length.state,
        outcome(w, m, length),
        pointer.values[0],
        wrap(a + x * size, 8 * pb as nat),
    ));
    let both = Lowered { values: seq![pointer.values[0], length.values[0]], ..length };
    assert(outcome(w, m, both) == outcome(w, m, length));
}

/// A range that holds its bound ends one behind it, and one that does not ends
/// at it.
pub proof fn law_range_ends(
    w: World,
    s: LoweringView,
    m: Machine,
    end: Value,
    inclusive: bool,
    y: int,
)
    requires
        s.steps.len() < usize::MAX,
        m.values.len() == s.steps.len(),
        end.ty is I32,
        held(w, s, m, end, y),
    ensures
        comes_to(
            w,
            s,
            m,
            range_end(s, end, inclusive),
            ValueType::I32,
            if inclusive {
                wrap(y + 1, 32)
            } else {
                y
            },
        ),
{
    vstd::arithmetic::power2::lemma2_to64();
    lemma_nothing(w, s, m, seq![end]);
    if inclusive {
        lemma_wrap_small(1, 32);
        lemma_wrap_fits(y + 1, 32);
        let op = Op::Binary {
            op: Arith::IntAdd,
            left: end,
            right: int_value(ValueType::I32, 1),
        };
        lemma_then(w, s, m, s.having(end), op, ValueType::I32, wrap(y + 1, 32));
    }
}

/// Where control goes behind an instruction.
pub open spec fn goes_to(w: World, m: Machine, op: Op) -> Option<usize> {
    match op {
        Op::Branch(target) => Some(target),
        Op::ConditionalBranch { condition, then_block, else_block } => if amount(w, m, condition)
            != 0 {
            Some(then_block)
        } else {
            Some(else_block)
        },
        _ => None,
    }
}

/// Once its condition has been computed, a branch goes to the block of the
/// condition where it holds and to the other one where it does not.
pub proof fn law_branches(
    w: World,
    frame: FrameView,
    s: LoweringView,
    m: Machine,
    condition: MirExprNode,
    terminator: MirTerminator,
    block_count: nat,
    sret: Option<Value>,
    ret: ResolvedType,
    ty: ValueType,
    a: int,
)
    requires
        m.values.len() == s.steps.len(),
        block_count <= usize::MAX,
        terminator matches MirTerminator::Branch { condition: c, then_block, else_block } && {
            &&& c == condition
            &&& then_block.0 < block_count
            &&& else_block.0 < block_count
        },
        comes_to(w, s, m, expr_lowered(frame, condition, s), ty, a),
        expr_lowered(frame, condition, s)->0.state.steps.len() < usize::MAX,
        ty.integral(),
    ensures
        terminated(frame, terminator, block_count, sret, ret, s) matches Some(after) && {
            let before = Lowered {
                state: LoweringView { steps: after.steps.drop_last(), ..after },
                values: Seq::empty(),
            };
            &&& after.steps.len() > 0
            &&& runs(w, s, m, before)
            &&& goes_to(w, outcome(w, m, before), after.steps.last().op) == Some(
                (if a != 0 {
                    terminator->then_block
                } else {
                    terminator->else_block
                }).0 as usize,
            )
        },
{
    let found = expr_lowered(frame, condition, s)->0;
    assert(first_of(Some(found))->0.values =~= found.values);
    lemma_begins_itself(found.state.steps);
    lemma_run_on(w, found.state.steps, found.state.steps, m);
    law_conditions_say_whether_a_value_is_zero(
        w,
        found.state,
        outcome(w, m, found),
        found.values[0],
        a,
    );
    let flag = as_condition(found.state, found.values[0])->0;
    lemma_both(w, s, m, found, flag);
    let after = terminated(frame, terminator, block_count, sret, ret, s)->0;
    assert(after.steps.drop_last() =~= flag.state.steps);
}

/// Where a storage in memory lies.
pub open spec fn address(w: World, m: Machine, storage: Storage) -> int {
    match storage {
        Storage::Values(_) => 0,
        Storage::Memory { base, offset } => amount(w, m, base) + offset,
    }
}

/// How far along something lies that a step of a place leads to within what it
/// starts from: a field where its struct has it, a tag in front, what all
/// variants share and what one of them holds where the enum has it, and the
/// second half of a pair behind a pointer.
pub open spec fn distance(ty: ResolvedType, step: MirProjection, pointer_bytes: u32) -> Option<nat> {
    match (step, ty) {
        (MirProjection::FieldAccess { index, .. }, ResolvedType::Struct(cell)) => Some(
            plan_offset(
                field_parts(cell.fields@, pointer_bytes),
                index as int,
                cell.layout.pack as nat,
                pointer_bytes,
            ),
        ),
        (MirProjection::UnionField { .. }, _) => Some(0),
        (MirProjection::EnumTag { .. }, ResolvedType::Enum { .. }) => Some(0),
        (MirProjection::EnumHeader { index, .. }, ResolvedType::Enum { cell, .. }) => Some(
            header_at(*cell, index as int, pointer_bytes),
        ),
        (MirProjection::EnumDynamicField { index, .. }, ResolvedType::Enum { cell, .. }) => Some(
            dynamic_at(*cell, index as int, pointer_bytes),
        ),
        (
            MirProjection::EnumBody { variant_index, field_index, .. },
            ResolvedType::Enum { cell, .. },
        ) => Some(body_at(*cell, variant_index as int, field_index as int, pointer_bytes)),
        (MirProjection::SliceLength, _) => Some(pointer_bytes as nat),
        (MirProjection::SpecObjectPtr { .. }, _) => Some(0),
        (MirProjection::SpecObjectVtable, _) => Some(pointer_bytes as nat),
        _ => None,
    }
}

proof fn lemma_within(w: World, m: Machine, p: PlaceState, next: PlaceState, by: nat)
    requires
        p.storage is Memory,
        shifted(p.storage, by) == Some(next.storage) || by == 0 && next.storage == p.storage,
    ensures
        next.storage is Memory,
        address(w, m, next.storage) == address(w, m, p.storage) + by,
{
}

/// A step within something in memory leads as far along as the part lies, and
/// needs no instruction.
#[verifier::rlimit(60)]
pub proof fn law_steps_within(
    w: World,
    frame: FrameView,
    p: PlaceState,
    m: Machine,
    step: MirProjection,
)
    requires
        p.storage is Memory,
        projected(frame, p, step) is Some,
        distance(p.ty, step, frame.pb()) is Some,
    ensures
        projected(frame, p, step)->0.state == p.state,
        projected(frame, p, step)->0.storage is Memory,
        address(w, m, projected(frame, p, step)->0.storage) == address(w, m, p.storage) + distance(
            p.ty,
            step,
            frame.pb(),
        )->0,
{
    let by = distance(p.ty, step, frame.pb())->0;
    lemma_within(w, m, p, projected(frame, p, step)->0, by);
}

/// A field of a struct in values is those of them that would be read from where
/// the field lies, were the struct in memory.
pub proof fn law_fields_in_values_are_those_in_memory(
    values: Seq<Value>,
    ty: ResolvedType,
    cell: Rc<ResolvedStructType>,
    index: int,
    pointer_bytes: u32,
)
    requires
        ty == ResolvedType::Struct(cell),
        cell.layout.pack >= 1,
        0 <= index < cell.fields@.len(),
        values.len() == leaves_spec(ty, pointer_bytes).len(),
    ensures
        field_storage(Storage::Values(values), *cell, index, pointer_bytes) matches Some(
            Storage::Values(found),
        ) && {
            let own = leaves_spec(cell.fields@[index].ty, pointer_bytes);
            &&& found.len() == own.len()
            &&& exists|start: int|
                {
                    &&& 0 <= start <= values.len() - own.len()
                    &&& found == #[trigger] values.subrange(start, start + own.len())
                    &&& own == leaves_spec(ty, pointer_bytes).subrange(start, start + own.len())
                    &&& leaf_bytes(
                        leaves_spec(ty, pointer_bytes).take(start),
                        pointer_bytes,
                    ) == plan_offset(
                        field_parts(cell.fields@, pointer_bytes),
                        index,
                        cell.layout.pack as nat,
                        pointer_bytes,
                    )
                }
        },
{
    law_fields_of_structs_stand_where_they_lie(ty, cell, index, pointer_bytes);
    let start = plan_start(
        field_parts(cell.fields@, pointer_bytes),
        index,
        cell.layout.pack as nat,
        pointer_bytes,
    ) as int;
    let own = leaves_spec(cell.fields@[index].ty, pointer_bytes);
    let found = values.subrange(start, start + own.len());
    assert(field_storage(Storage::Values(values), *cell, index, pointer_bytes) == Some(
        Storage::Values(found),
    ));
}

} // verus!
