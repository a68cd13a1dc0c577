//! What the instructions of expressions and places compute, given what those
//! of their parts compute.

use crate::checked::NumberValue;
use crate::codegen::cranelift::{leaf_ir, pointer_ir, FrameView, IrType, Lowered, LoweringView, Op};
use crate::codegen::cranelift::constant::wrapped;
use crate::codegen::cranelift::evaluation::{
    begins, bits_in, effect, held, is_floating, lemma_begins_all, lemma_begins_itself, lemma_held,
    lemma_run_on, lemma_run_one, run, World,
};
use crate::codegen::cranelift::expr::{converted, expr_lowered, first_of, operated};
use crate::codegen::cranelift::operation_laws::{
    cast_meaning, decides, law_casts_convert, law_operators_compute, of_kind,
};
use crate::codegen::machine::{
    fits, kind_of, lemma_wrap_fits, lemma_wrap_small, meaning, truth, wrap, Machine,
};
use crate::codegen::mir::{MirBinaryOp, MirCast, MirExpr, MirExprNode};
use crate::codegen::shared::operand_kind;
use crate::layout::{leaves_spec, size_of};
use crate::resolved_type::NumericKind;
use vstd::arithmetic::power2::pow2;
use vstd::prelude::*;

verus! {

/// Whether what was lowered from a state on can be run.
pub open spec fn runs(w: World, s: LoweringView, m: Machine, lowered: Lowered) -> bool {
    &&& begins(lowered.state.steps, s.steps)
    &&& run(w, lowered.state.steps, m) is Some
}

/// The machine once what was lowered has been run.
pub open spec fn outcome(w: World, m: Machine, lowered: Lowered) -> Machine {
    run(w, lowered.state.steps, m)->0
}

/// Whether running what was lowered gives one value: its type and its bits.
pub open spec fn gives(
    w: World,
    s: LoweringView,
    m: Machine,
    lowered: Option<Lowered>,
    ty: IrType,
    bits: int,
) -> bool {
    lowered matches Some(found) && {
        &&& runs(w, s, m, found)
        &&& found.values.len() == 1
        &&& held(found.state, outcome(w, m, found), found.values[0], ty, bits)
    }
}

/// Whether running what was lowered gives two values.
pub open spec fn gives_two(
    w: World,
    s: LoweringView,
    m: Machine,
    lowered: Option<Lowered>,
    first: IrType,
    a: int,
    second: IrType,
    b: int,
) -> bool {
    lowered matches Some(found) && {
        &&& runs(w, s, m, found)
        &&& found.values.len() == 2
        &&& held(found.state, outcome(w, m, found), found.values[0], first, a)
        &&& held(found.state, outcome(w, m, found), found.values[1], second, b)
    }
}

/// Memory once what was lowered has been run.
pub open spec fn memory_after(w: World, m: Machine, lowered: Option<Lowered>) -> spec_fn(
    int,
) -> int {
    outcome(w, m, lowered->0).memory
}

/// One more instruction, which defines something.
pub(crate) proof fn lemma_then(
    w: World,
    s: LoweringView,
    m: Machine,
    first: Lowered,
    op: Op,
    ty: IrType,
    result: int,
)
    requires
        m.values.len() == s.steps.len(),
        runs(w, s, m, first),
        first.state.steps.len() < usize::MAX,
        effect(w, first.state.steps, outcome(w, m, first), op, Some(ty)) == Some(
            outcome(w, m, first).having(result),
        ),
        !is_floating(ty) ==> fits(result, bits_in(ty)),
    ensures
        gives(w, s, m, Some(first.state.define(op, ty)), ty, result),
        outcome(w, m, first.state.define(op, ty)) == outcome(w, m, first).having(result),
        begins(first.state.define(op, ty).state.steps, first.state.steps),
        outcome(w, m, first).values.len() == first.state.steps.len(),
        forall|index: usize, t: IrType, bits: int|
            held(first.state, outcome(w, m, first), index, t, bits) ==> #[trigger] held(
                first.state.define(op, ty).state,
                outcome(w, m, first.state.define(op, ty)),
                index,
                t,
                bits,
            ),
{
    let mid = outcome(w, m, first);
    let defined = first.state.define(op, ty);
    lemma_begins_itself(first.state.steps);
    lemma_run_on(w, first.state.steps, first.state.steps, m);
    lemma_run_one(w, first.state, mid, op, Some(ty));
    lemma_run_on(w, first.state.steps, defined.state.steps, m);
    lemma_begins_all(s.steps, first.state.steps, defined.state.steps);
    assert forall|index: usize, t: IrType, bits: int|
        held(first.state, mid, index, t, bits) implies #[trigger] held(
        defined.state,
        outcome(w, m, defined),
        index,
        t,
        bits,
    ) by {
        lemma_held(first.state, mid, defined.state, outcome(w, m, defined), index, t, bits);
    }
}

/// What is lowered behind something else runs behind it.
pub(crate) proof fn lemma_both(
    w: World,
    s: LoweringView,
    m: Machine,
    first: Lowered,
    second: Lowered,
)
    requires
        m.values.len() == s.steps.len(),
        runs(w, s, m, first),
        runs(w, first.state, outcome(w, m, first), second),
    ensures
        runs(w, s, m, second),
        outcome(w, m, second) == outcome(w, outcome(w, m, first), second),
        outcome(w, m, first).values.len() == first.state.steps.len(),
        outcome(w, m, second).values.len() == second.state.steps.len(),
        forall|index: usize, t: IrType, bits: int|
            held(first.state, outcome(w, m, first), index, t, bits) ==> #[trigger] held(
                second.state,
                outcome(w, m, second),
                index,
                t,
                bits,
            ),
{
    let mid = outcome(w, m, first);
    lemma_run_on(w, first.state.steps, second.state.steps, m);
    lemma_begins_all(s.steps, first.state.steps, second.state.steps);
    lemma_begins_itself(second.state.steps);
    lemma_run_on(w, second.state.steps, second.state.steps, mid);
    assert forall|index: usize, t: IrType, bits: int|
        held(first.state, mid, index, t, bits) implies #[trigger] held(
        second.state,
        outcome(w, m, second),
        index,
        t,
        bits,
    ) by {
        lemma_held(first.state, mid, second.state, outcome(w, m, second), index, t, bits);
    }
}

/// Where nothing is lowered, nothing is run.
pub(crate) proof fn lemma_nothing(w: World, s: LoweringView, m: Machine, values: Seq<usize>)
    requires
        m.values.len() == s.steps.len(),
    ensures
        runs(w, s, m, Lowered { state: s, values }),
        outcome(w, m, Lowered { state: s, values }) == m,
{
    lemma_begins_itself(s.steps);
}

/// How wide a pointer can be.
pub(crate) proof fn lemma_pointers(frame: FrameView)
    ensures
        frame.pb() == 2 || frame.pb() == 4 || frame.pb() == 8,
        bits_in(pointer_ir(frame.pb())) == 8 * frame.pb(),
{
}

/// A whole number is emitted as its bits in the width of its type: the low ones
/// where it has more.
pub proof fn law_numbers_are_their_bits(
    w: World,
    frame: FrameView,
    s: LoweringView,
    m: Machine,
    node: MirExprNode,
    kind: NumericKind,
    x: int,
)
    requires
        s.steps.len() < usize::MAX,
        m.values.len() == s.steps.len(),
        kind_of(node.ty, (8 * frame.pb()) as u32) == Some(kind),
        !(kind is Float),
        match node.kind {
            MirExpr::Number(NumberValue::Signed(v)) => x == v,
            MirExpr::Number(NumberValue::Unsigned(v)) => x == v,
            _ => false,
        },
    ensures
        exists|ty: IrType|
            of_kind(ty, kind) && gives(
                w,
                s,
                m,
                expr_lowered(frame, node, s),
                ty,
                wrap(x, kind.width() as nat),
            ),
        memory_after(w, m, expr_lowered(frame, node, s)) == m.memory,
{
    let ty = leaf_ir(leaves_spec(node.ty, frame.pb())[0], frame.pb());
    let width = kind.width() as nat;
    lemma_wrap_fits(x, width);
    lemma_pointers(frame);
    lemma_nothing(w, s, m, Seq::empty());
    let start = Lowered { state: s, values: Seq::<usize>::empty() };
    match node.kind {
        MirExpr::Number(NumberValue::Signed(v)) => {
            lemma_then(w, s, m, start, Op::Iconst(v), ty, wrap(x, width));
        },
        MirExpr::Number(NumberValue::Unsigned(v)) => {
            lemma_same_bits(v, width);
            lemma_then(w, s, m, start, Op::Iconst(wrapped(v)), ty, wrap(x, width));
        },
        _ => {},
    }
    assert(of_kind(ty, kind));
}

proof fn lemma_same_bits(v: u64, width: nat)
    requires
        width == 8 || width == 16 || width == 32 || width == 64,
    ensures
        wrap(wrapped(v) as int, width) == wrap(v as int, width),
{
    vstd::arithmetic::power2::lemma2_to64();
    vstd::arithmetic::power2::lemma2_to64_rest();
    if v >= 0x8000_0000_0000_0000 {
        let k: int = if width == 8 {
            -0x100_0000_0000_0000
        } else if width == 16 {
            -0x1_0000_0000_0000
        } else if width == 32 {
            -0x1_0000_0000
        } else {
            -1
        };
        crate::codegen::machine::lemma_wrap_shift(v as int, k, width);
    }
}

/// Truth is one and falsehood zero, in a byte; a character is its code point;
/// and the size of a type is what the type is laid out in.
pub proof fn law_constants(
    w: World,
    frame: FrameView,
    s: LoweringView,
    m: Machine,
    node: MirExprNode,
)
    requires
        s.steps.len() < usize::MAX,
        m.values.len() == s.steps.len(),
    ensures
        node.kind matches MirExpr::Bool(flag) ==> gives(
            w,
            s,
            m,
            expr_lowered(frame, node, s),
            IrType::I8,
            truth(flag),
        ) && memory_after(w, m, expr_lowered(frame, node, s)) == m.memory,
        node.kind matches MirExpr::Char(c) ==> gives(
            w,
            s,
            m,
            expr_lowered(frame, node, s),
            IrType::I32,
            c as int,
        ) && memory_after(w, m, expr_lowered(frame, node, s)) == m.memory,
        node.kind matches MirExpr::Sizeof(ty) ==> (size_of(ty, frame.pb()) <= u32::MAX && fits(
            size_of(ty, frame.pb()) as int,
            8 * frame.pb() as nat,
        ) ==> gives(
            w,
            s,
            m,
            expr_lowered(frame, node, s),
            pointer_ir(frame.pb()),
            size_of(ty, frame.pb()) as int,
        ) && memory_after(w, m, expr_lowered(frame, node, s)) == m.memory),
{
    vstd::arithmetic::power2::lemma2_to64();
    lemma_nothing(w, s, m, Seq::empty());
    lemma_pointers(frame);
    let start = Lowered { state: s, values: Seq::<usize>::empty() };
    match node.kind {
        MirExpr::Bool(flag) => {
            let bit: i64 = if flag {
                1
            } else {
                0
            };
            lemma_wrap_small(truth(flag), 8);
            lemma_then(w, s, m, start, Op::Iconst(bit), IrType::I8, truth(flag));
        },
        MirExpr::Char(c) => {
            lemma_wrap_small(c as int, 32);
            lemma_then(w, s, m, start, Op::Iconst(c as i64), IrType::I32, c as int);
        },
        MirExpr::Sizeof(ty) => {
            let size = size_of(ty, frame.pb()) as int;
            if size <= u32::MAX && fits(size, 8 * frame.pb() as nat) {
                lemma_wrap_small(size, 8 * frame.pb() as nat);
                lemma_then(
                    w,
                    s,
                    m,
                    start,
                    Op::Iconst(size as i64),
                    pointer_ir(frame.pb()),
                    size,
                );
            }
        },
        _ => {},
    }
}

/// A negated number is the number's opposite, in as many bits; a negated float
/// is the float's.
pub proof fn law_negation(
    w: World,
    frame: FrameView,
    s: LoweringView,
    m: Machine,
    node: MirExprNode,
    kind: NumericKind,
    ty: IrType,
    a: int,
)
    requires
        m.values.len() == s.steps.len(),
        node.kind matches MirExpr::Negate(base) && {
            &&& kind_of(base.ty, (8 * frame.pb()) as u32) == Some(kind)
            &&& gives(w, s, m, expr_lowered(frame, *base, s), ty, a)
            &&& expr_lowered(frame, *base, s)->0.state.steps.len() < usize::MAX
        },
        of_kind(ty, kind),
    ensures
        gives(
            w,
            s,
            m,
            expr_lowered(frame, node, s),
            ty,
            if kind is Float {
                (w.floats.negated)(kind.width() as nat, a)
            } else {
                wrap(-a, kind.width() as nat)
            },
        ),
        memory_after(w, m, expr_lowered(frame, node, s)) == memory_after(
            w,
            m,
            expr_lowered(frame, *node.kind->Negate_0, s),
        ),
{
    let base = node.kind->Negate_0;
    let first = expr_lowered(frame, *base, s)->0;
    assert(first_of(Some(first))->0.values =~= first.values);
    lemma_wrap_fits(-a, kind.width() as nat);
    let index = first.values[0];
    if kind is Float {
        let result = (w.floats.negated)(kind.width() as nat, a);
        lemma_then(w, s, m, first, Op::Fneg(index), ty, result);
    } else {
        lemma_then(w, s, m, first, Op::Ineg(index), ty, wrap(-a, kind.width() as nat));
    }
}

/// Every bit of a complemented number is the other one: a number and its
/// complement make up all ones.
pub proof fn law_complement(
    w: World,
    frame: FrameView,
    s: LoweringView,
    m: Machine,
    node: MirExprNode,
    ty: IrType,
    a: int,
)
    requires
        m.values.len() == s.steps.len(),
        node.kind matches MirExpr::BitNot(base) && {
            &&& gives(w, s, m, expr_lowered(frame, *base, s), ty, a)
            &&& expr_lowered(frame, *base, s)->0.state.steps.len() < usize::MAX
        },
        !is_floating(ty),
    ensures
        gives(w, s, m, expr_lowered(frame, node, s), ty, pow2(bits_in(ty)) - 1 - a),
        memory_after(w, m, expr_lowered(frame, node, s)) == memory_after(
            w,
            m,
            expr_lowered(frame, *node.kind->BitNot_0, s),
        ),
{
    let base = node.kind->BitNot_0;
    let first = expr_lowered(frame, *base, s)->0;
    assert(first_of(Some(first))->0.values =~= first.values);
    let width = bits_in(ty);
    crate::codegen::machine::lemma_wrap_shift(-1 - a, 1, width);
    lemma_wrap_small(pow2(width) - 1 - a, width);
    lemma_then(w, s, m, first, Op::Bnot(first.values[0]), ty, pow2(width) - 1 - a);
}

/// An operator's operands are evaluated from left to right, and the result is
/// what the operator means for what they gave.
pub proof fn law_operators(
    w: World,
    frame: FrameView,
    s: LoweringView,
    m: Machine,
    node: MirExprNode,
    binary: MirBinaryOp,
    kind: NumericKind,
    ty: IrType,
    a: int,
    b: int,
)
    requires
        m.values.len() == s.steps.len(),
        node.kind == MirExpr::BinaryOp(binary),
        kind_of(binary.left.ty, (8 * frame.pb()) as u32) == Some(kind),
        of_kind(ty, kind),
        gives(w, s, m, expr_lowered(frame, *binary.left, s), ty, a),
        ({
            let left = expr_lowered(frame, *binary.left, s)->0;
            let right = expr_lowered(frame, *binary.right, left.state);
            &&& gives(w, left.state, outcome(w, m, left), right, ty, b)
            &&& right->0.state.steps.len() < usize::MAX
        }),
        meaning(w.floats, binary.op, kind, a, b) is Some,
    ensures
        gives(
            w,
            s,
            m,
            expr_lowered(frame, node, s),
            if decides(binary.op) {
                IrType::I8
            } else {
                ty
            },
            meaning(w.floats, binary.op, kind, a, b)->0,
        ),
{
    let left = expr_lowered(frame, *binary.left, s)->0;
    let right = expr_lowered(frame, *binary.right, left.state)->0;
    assert(first_of(Some(left))->0.values =~= left.values);
    assert(first_of(Some(right))->0.values =~= right.values);
    lemma_both(w, s, m, left, right);
    let mid = outcome(w, m, right);
    law_operators_compute(
        w,
        right.state,
        mid,
        binary.op,
        kind,
        ty,
        left.values[0],
        right.values[0],
        a,
        b,
    );
    let result = operated(right.state, binary.op, kind, left.values[0], right.values[0])->0;
    lemma_both(w, s, m, right, result);
    assert(operand_kind(binary.left.ty, (frame.pb() * 8) as u32) == Some(kind));
    assert(crate::codegen::cranelift::expr::binary_lowered(frame, binary, s) == Some(result));
}

/// A cast gives what it means for what it is given.
pub proof fn law_casts(
    w: World,
    frame: FrameView,
    s: LoweringView,
    m: Machine,
    node: MirExprNode,
    cast: MirCast,
    kind: NumericKind,
    from: IrType,
    bits: int,
)
    requires
        m.values.len() == s.steps.len(),
        node.kind == MirExpr::Cast(cast),
        kind_of(cast.target_type, (8 * frame.pb()) as u32) == Some(kind),
        gives(w, s, m, expr_lowered(frame, *cast.base, s), from, bits),
        expr_lowered(frame, *cast.base, s)->0.state.steps.len() < usize::MAX,
        cast_meaning(w.floats, cast.kind, bits_in(from), kind.width() as nat, bits) is Some,
        !(kind is Float) ==> fits(
            cast_meaning(w.floats, cast.kind, bits_in(from), kind.width() as nat, bits)->0,
            kind.width() as nat,
        ),
    ensures
        exists|ty: IrType|
            of_kind(ty, kind) && gives(
                w,
                s,
                m,
                expr_lowered(frame, node, s),
                ty,
                cast_meaning(w.floats, cast.kind, bits_in(from), kind.width() as nat, bits)->0,
            ),
{
    lemma_pointers(frame);
    let pb = frame.pb();
    let base = expr_lowered(frame, *cast.base, s)->0;
    let to = leaf_ir(leaves_spec(cast.target_type, pb)[0], pb);
    assert(of_kind(to, kind));
    lemma_begins_itself(base.state.steps);
    lemma_run_on(w, base.state.steps, base.state.steps, m);
    law_casts_convert(w, base, outcome(w, m, base), cast.kind, cast.base.ty, from, to, pb, bits);
    let result = converted(base, cast.kind, cast.base.ty, to, pb)->0;
    lemma_both(w, s, m, base, result);
    assert(crate::codegen::cranelift::expr::cast_lowered(frame, cast, s) == Some(result));
}

} // verus!
