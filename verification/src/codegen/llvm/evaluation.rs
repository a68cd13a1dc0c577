//! What emitted instructions do when they are run.

use crate::codegen::llvm::{
    Arith, Convert, FloatPredicate, IntPredicate, Lowered, LoweringView, Op, Operand, Step, Value,
    ValueType,
};
use crate::codegen::machine::{
    bitwise, continues, fits, quotient, read, remainder, signed, truth, value, wrap, Floats,
    Machine,
};
use crate::hir::HirId;
use crate::resolved_type::NumericKind;
use vstd::arithmetic::power2::pow2;
use vstd::prelude::*;

verus! {

/// What a function runs in: how wide pointers are, how floats behave, what it
/// was given, and where everything it can take the address of lies.
pub struct World {
    pub pointer_bytes: u32,
    pub floats: Floats,
    pub params: Seq<int>,
    pub slots: Seq<int>,
    pub data: Seq<int>,
    pub tables: Seq<int>,
    pub globals: spec_fn(HirId) -> int,
    pub functions: spec_fn(HirId) -> int,
}

/// The bits of a type.
pub open spec fn bits_in(ty: ValueType, pointer_bytes: u32) -> nat {
    match ty {
        ValueType::I1 => 1,
        ValueType::I8 => 8,
        ValueType::I16 => 16,
        ValueType::I32 => 32,
        ValueType::I64 => 64,
        ValueType::F32 => 32,
        ValueType::F64 => 64,
        ValueType::Ptr => 8 * pointer_bytes as nat,
        ValueType::Empty => 0,
    }
}

/// Whether a type is one of floats.
pub open spec fn is_floating(ty: ValueType) -> bool {
    ty is F32 || ty is F64
}

/// The bits of a value. A float constant is given in 64 bits.
pub open spec fn amount(w: World, m: Machine, v: Value) -> int {
    let width = bits_in(v.ty, w.pointer_bytes);
    match v.operand {
        Operand::Step(index) => m.values[index as int],
        Operand::Param(index) => w.params[index as int],
        Operand::Int(bits) => wrap(bits as int, width),
        Operand::Float(bits) => (w.floats.resized)(64, bits as int, width),
        Operand::IntAddress(bits) => wrap(bits as int, width),
        Operand::Null => 0,
        Operand::Slot(index) => w.slots[index as int],
        Operand::Data(index) => w.data[index as int],
        Operand::Vtable(index) => w.tables[index as int],
        Operand::Function(id) => (w.functions)(id),
        Operand::Global(id) => (w.globals)(id),
    }
}

/// What an operation on two values gives; nothing where it is undefined.
pub open spec fn computed(m: Floats, op: Arith, width: nat, a: int, b: int) -> Option<int> {
    let x = signed(a, width);
    let y = signed(b, width);
    match op {
        Arith::IntAdd => Some(wrap(a + b, width)),
        Arith::IntSub => Some(wrap(a - b, width)),
        Arith::IntMul => Some(wrap(a * b, width)),
        Arith::IntUnsignedDiv => if b == 0 {
            None
        } else {
            Some(a / b)
        },
        Arith::IntUnsignedRem => if b == 0 {
            None
        } else {
            Some(a % b)
        },
        Arith::IntSignedDiv => if b == 0 || 2 * quotient(x, y) >= pow2(width) {
            None
        } else {
            Some(wrap(quotient(x, y), width))
        },
        Arith::IntSignedRem => if b == 0 || 2 * quotient(x, y) >= pow2(width) {
            None
        } else {
            Some(wrap(remainder(x, y), width))
        },
        Arith::And => Some(bitwise(a, b, width, |p: bool, q: bool| p && q)),
        Arith::Or => Some(bitwise(a, b, width, |p: bool, q: bool| p || q)),
        Arith::Xor => Some(bitwise(a, b, width, |p: bool, q: bool| p != q)),
        Arith::LeftShift => if b >= width {
            None
        } else {
            Some(wrap(a * pow2(b as nat), width))
        },
        Arith::LogicalRightShift => if b >= width {
            None
        } else {
            Some(a / (pow2(b as nat) as int))
        },
        Arith::ArithmeticRightShift => if b >= width {
            None
        } else {
            Some(wrap(x / (pow2(b as nat) as int), width))
        },
        Arith::FloatAdd => Some((m.plus)(width, a, b)),
        Arith::FloatSub => Some((m.minus)(width, a, b)),
        Arith::FloatMul => Some((m.times)(width, a, b)),
        Arith::FloatDiv => Some((m.over)(width, a, b)),
    }
}

/// Whether two values are as a predicate says.
pub open spec fn ordered(predicate: IntPredicate, width: nat, a: int, b: int) -> bool {
    let x = signed(a, width);
    let y = signed(b, width);
    match predicate {
        IntPredicate::EQ => a == b,
        IntPredicate::NE => a != b,
        IntPredicate::SLT => x < y,
        IntPredicate::SLE => x <= y,
        IntPredicate::SGT => x > y,
        IntPredicate::SGE => x >= y,
        IntPredicate::ULT => a < b,
        IntPredicate::ULE => a <= b,
        IntPredicate::UGT => a > b,
        IntPredicate::UGE => a >= b,
    }
}

/// Whether two floats are numbers, and as a predicate says.
pub open spec fn floats_ordered(m: Floats, predicate: FloatPredicate, width: nat, a: int, b: int) -> bool {
    !(m.unordered)(width, a, b) && match predicate {
        FloatPredicate::OEQ => (m.equal)(width, a, b),
        FloatPredicate::ONE => !(m.equal)(width, a, b),
        FloatPredicate::OLT => (m.less)(width, a, b),
        FloatPredicate::OLE => (m.less)(width, a, b) || (m.equal)(width, a, b),
        FloatPredicate::OGT => (m.less)(width, b, a),
        FloatPredicate::OGE => (m.less)(width, b, a) || (m.equal)(width, a, b),
    }
}

/// What a conversion of a value gives.
pub open spec fn converted_to(m: Floats, op: Convert, from: nat, to: nat, a: int) -> int {
    match op {
        Convert::SignExtend => wrap(signed(a, from), to),
        Convert::ZeroExtend => wrap(a, to),
        Convert::Truncate => wrap(a, to),
        Convert::SignedIntToFloat => (m.nearest)(to, signed(a, from)),
        Convert::UnsignedIntToFloat => (m.nearest)(to, a),
        Convert::FloatToSignedInt => (m.saturated)(from, a, NumericKind::Signed(to as u32)),
        Convert::FloatToUnsignedInt => (m.saturated)(from, a, NumericKind::Unsigned(to as u32)),
        Convert::FloatExtend => (m.resized)(from, a, to),
        Convert::FloatTruncate => (m.resized)(from, a, to),
        Convert::PtrToInt => wrap(a, to),
        Convert::IntToPtr => wrap(a, to),
    }
}

/// What an instruction defines and leaves in memory; nothing where it leads out
/// of the block or out of the function.
pub open spec fn effect(w: World, m: Machine, op: Op, ty: Option<ValueType>) -> Option<Machine> {
    let pb = w.pointer_bytes;
    let width = match ty {
        Some(ty) => bits_in(ty, pb),
        None => 0,
    };
    match op {
        Op::Gep { base, offset } => Some(
            m.having(
                wrap(
                    amount(w, m, base) + signed(amount(w, m, offset), bits_in(offset.ty, pb)),
                    8 * pb as nat,
                ),
            ),
        ),
        Op::Load { pointer, .. } => Some(
            m.having(read(m.memory, amount(w, m, pointer), width / 8)),
        ),
        Op::Store { value, pointer, .. } => Some(
            m.storing(amount(w, m, pointer), bits_in(value.ty, pb) / 8, amount(w, m, value)),
        ),
        Op::Binary { op: arith, left, right } => match computed(
            w.floats,
            arith,
            bits_in(left.ty, pb),
            amount(w, m, left),
            amount(w, m, right),
        ) {
            Some(result) => Some(m.having(result)),
            None => None,
        },
        Op::IntCompare { predicate, left, right } => Some(
            m.having(
                truth(
                    ordered(
                        predicate,
                        bits_in(left.ty, pb),
                        amount(w, m, left),
                        amount(w, m, right),
                    ),
                ),
            ),
        ),
        Op::FloatCompare { predicate, left, right } => Some(
            m.having(
                truth(
                    floats_ordered(
                        w.floats,
                        predicate,
                        bits_in(left.ty, pb),
                        amount(w, m, left),
                        amount(w, m, right),
                    ),
                ),
            ),
        ),
        Op::IntNeg(of) => Some(m.having(wrap(-amount(w, m, of), bits_in(of.ty, pb)))),
        Op::FloatNeg(of) => Some(
            m.having((w.floats.negated)(bits_in(of.ty, pb), amount(w, m, of))),
        ),
        Op::Not(of) => Some(m.having(wrap(-1 - amount(w, m, of), bits_in(of.ty, pb)))),
        Op::Convert { op: convert, value } => Some(
            m.having(
                converted_to(
                    w.floats,
                    convert,
                    bits_in(value.ty, pb),
                    width,
                    amount(w, m, value),
                ),
            ),
        ),
        Op::Pass(of) => Some(m.having(amount(w, m, of))),
        Op::Enter(_) => Some(m.having(0)),
        Op::Call { .. } => None,
        Op::ExtractValue { .. } => None,
        Op::InlineCode { .. } => None,
        Op::Branch(_) => None,
        Op::ConditionalBranch { .. } => None,
        Op::Return { .. } => None,
        Op::Unreachable => None,
    }
}

/// The machine once all instructions it has not run yet have been run.
pub open spec fn run(w: World, steps: Seq<Step>, m: Machine) -> Option<Machine>
    decreases steps.len() - m.values.len(),
{
    if m.values.len() >= steps.len() {
        Some(m)
    } else {
        let step = steps[m.values.len() as int];
        match effect(w, m, step.op, step.ty) {
            Some(next) => if next.values.len() == m.values.len() + 1 {
                run(w, steps, next)
            } else {
                None
            },
            None => None,
        }
    }
}

/// Whether instructions start with others.
pub open spec fn begins(steps: Seq<Step>, start: Seq<Step>) -> bool {
    start.len() <= steps.len() && steps.take(start.len() as int) == start
}

/// One more instruction is run last.
pub(crate) proof fn lemma_run_one(
    w: World,
    s: LoweringView,
    m: Machine,
    op: Op,
    ty: Option<ValueType>,
)
    requires
        m.values.len() == s.steps.len(),
        effect(w, m, op, ty) is Some,
    ensures
        run(w, s.push(op, ty).steps, m) == effect(w, m, op, ty),
        begins(s.push(op, ty).steps, s.steps),
        continues(m, effect(w, m, op, ty)->0),
        effect(w, m, op, ty)->0.values.len() == s.steps.len() + 1,
{
    let steps = s.push(op, ty).steps;
    assert(steps.take(s.steps.len() as int) =~= s.steps);
    let next = effect(w, m, op, ty)->0;
    assert(run(w, steps, next) == Some(next));
}

/// Running on from where a machine has come is the same as running at once.
pub(crate) proof fn lemma_run_on(w: World, a: Seq<Step>, b: Seq<Step>, m: Machine)
    requires
        begins(b, a),
        m.values.len() <= a.len(),
        run(w, a, m) is Some,
    ensures
        run(w, a, m)->0.values.len() == a.len(),
        continues(m, run(w, a, m)->0),
        run(w, b, m) == run(w, b, run(w, a, m)->0),
    decreases a.len() - m.values.len(),
{
    if m.values.len() < a.len() {
        let n = m.values.len() as int;
        let step = a[n];
        assert(b.take(a.len() as int)[n] == b[n]);
        let next = effect(w, m, step.op, step.ty)->0;
        lemma_run_on(w, a, b, next);
    }
}

pub(crate) proof fn lemma_begins_all(a: Seq<Step>, b: Seq<Step>, c: Seq<Step>)
    requires
        begins(b, a),
        begins(c, b),
    ensures
        begins(c, a),
{
    assert(c.take(a.len() as int) =~= b.take(a.len() as int)) by {
        assert forall|i: int| 0 <= i < a.len() implies c.take(a.len() as int)[i] == b.take(
            a.len() as int,
        )[i] by {
            assert(c.take(b.len() as int)[i] == c[i]);
        }
    }
}

pub(crate) proof fn lemma_begins_itself(a: Seq<Step>)
    ensures
        begins(a, a),
{
    assert(a.take(a.len() as int) =~= a);
}

/// Whether a value is there and has some bits.
pub open spec fn held(w: World, s: LoweringView, m: Machine, v: Value, bits: int) -> bool {
    &&& v.operand matches Operand::Step(index) ==> index < s.steps.len() && index
        < m.values.len()
    &&& amount(w, m, v) == bits
    &&& !is_floating(v.ty) ==> fits(bits, bits_in(v.ty, w.pointer_bytes))
}

/// Whether running what was lowered gives some bits, of one type, and leaves
/// memory as it was.
pub open spec fn gives(
    w: World,
    s: LoweringView,
    m: Machine,
    lowered: Lowered,
    ty: ValueType,
    bits: int,
) -> bool {
    &&& begins(lowered.state.steps, s.steps)
    &&& lowered.values.len() == 1
    &&& lowered.values[0].ty == ty
    &&& run(w, lowered.state.steps, m) matches Some(after) && {
        &&& continues(m, after)
        &&& after.memory == m.memory
        &&& held(w, lowered.state, after, lowered.values[0], bits)
    }
}

/// What is run in two parts gives what the second part gives.
pub(crate) proof fn lemma_gives_then(
    w: World,
    s: LoweringView,
    m: Machine,
    first: Lowered,
    second: Lowered,
    p: ValueType,
    a: int,
    q: ValueType,
    b: int,
)
    requires
        m.values.len() == s.steps.len(),
        gives(w, s, m, first, p, a),
        gives(w, first.state, run(w, first.state.steps, m)->0, second, q, b),
    ensures
        gives(w, s, m, second, q, b),
        run(w, first.state.steps, m)->0.values.len() == first.state.steps.len(),
{
    let mid = run(w, first.state.steps, m)->0;
    lemma_run_on(w, first.state.steps, second.state.steps, m);
    lemma_begins_all(s.steps, first.state.steps, second.state.steps);
    assert(continues(mid, run(w, second.state.steps, mid)->0));
}

} // verus!
