//! What emitted instructions do when they are run.

use crate::codegen::cranelift::{Arith, Convert, FloatCC, IntCC, IrType, LoweringView, Op, Step};
use crate::codegen::machine::{
    bitwise, continues, fits, quotient, read, remainder, signed, truth, value, wrap, Floats,
    Machine,
};
use crate::hir::HirId;
use crate::resolved_type::NumericKind;
use vstd::arithmetic::power2::pow2;
use vstd::prelude::*;

verus! {

/// What a function runs in: how floats behave, what it was given, and where
/// everything it can take the address of lies.
pub struct World {
    pub floats: Floats,
    pub params: Seq<int>,
    pub slots: Seq<int>,
    pub data: Seq<int>,
    pub tables: Seq<int>,
    pub globals: spec_fn(HirId) -> int,
    pub functions: spec_fn(HirId) -> int,
}

/// The bits of a type.
pub open spec fn bits_in(ty: IrType) -> nat {
    8 * ty.width()
}

/// Whether a type is one of floats.
pub open spec fn is_floating(ty: IrType) -> bool {
    ty is F32 || ty is F64
}

/// The bits of what an instruction defines.
pub open spec fn bits_at(steps: Seq<Step>, index: usize) -> nat {
    match steps[index as int].ty {
        Some(ty) => bits_in(ty),
        None => 0,
    }
}

/// What an operation on two registers gives; nothing where it traps.
pub open spec fn computed(m: Floats, op: Arith, width: nat, a: int, b: int) -> Option<int> {
    let x = signed(a, width);
    let y = signed(b, width);
    match op {
        Arith::Iadd => Some(wrap(a + b, width)),
        Arith::Isub => Some(wrap(a - b, width)),
        Arith::Imul => Some(wrap(a * b, width)),
        Arith::Udiv => if b == 0 {
            None
        } else {
            Some(a / b)
        },
        Arith::Urem => if b == 0 {
            None
        } else {
            Some(a % b)
        },
        Arith::Sdiv => if b == 0 || 2 * quotient(x, y) >= pow2(width) {
            None
        } else {
            Some(wrap(quotient(x, y), width))
        },
        Arith::Srem => if b == 0 {
            None
        } else {
            Some(wrap(remainder(x, y), width))
        },
        Arith::Band => Some(bitwise(a, b, width, |p: bool, q: bool| p && q)),
        Arith::Bor => Some(bitwise(a, b, width, |p: bool, q: bool| p || q)),
        Arith::Bxor => Some(bitwise(a, b, width, |p: bool, q: bool| p != q)),
        Arith::Ishl => Some(wrap(a * pow2((b % (width as int)) as nat), width)),
        Arith::Ushr => Some(a / (pow2((b % (width as int)) as nat) as int)),
        Arith::Sshr => Some(wrap(x / (pow2((b % (width as int)) as nat) as int), width)),
        Arith::Fadd => Some((m.plus)(width, a, b)),
        Arith::Fsub => Some((m.minus)(width, a, b)),
        Arith::Fmul => Some((m.times)(width, a, b)),
        Arith::Fdiv => Some((m.over)(width, a, b)),
    }
}

/// Whether two registers are as a condition says.
pub open spec fn ordered(cc: IntCC, width: nat, a: int, b: int) -> bool {
    let x = signed(a, width);
    let y = signed(b, width);
    match cc {
        IntCC::Equal => a == b,
        IntCC::NotEqual => a != b,
        IntCC::SignedLessThan => x < y,
        IntCC::SignedLessThanOrEqual => x <= y,
        IntCC::SignedGreaterThan => x > y,
        IntCC::SignedGreaterThanOrEqual => x >= y,
        IntCC::UnsignedLessThan => a < b,
        IntCC::UnsignedLessThanOrEqual => a <= b,
        IntCC::UnsignedGreaterThan => a > b,
        IntCC::UnsignedGreaterThanOrEqual => a >= b,
    }
}

/// Whether two floats are as a condition says.
pub open spec fn floats_ordered(m: Floats, cc: FloatCC, width: nat, a: int, b: int) -> bool {
    match cc {
        FloatCC::Equal => (m.equal)(width, a, b),
        FloatCC::NotEqual => !(m.equal)(width, a, b),
        FloatCC::LessThan => (m.less)(width, a, b),
        FloatCC::LessThanOrEqual => (m.less)(width, a, b) || (m.equal)(width, a, b),
        FloatCC::GreaterThan => (m.less)(width, b, a),
        FloatCC::GreaterThanOrEqual => (m.less)(width, b, a) || (m.equal)(width, a, b),
    }
}

/// What a conversion of a register gives.
pub open spec fn converted_to(m: Floats, op: Convert, from: nat, to: nat, a: int) -> int {
    match op {
        Convert::Sextend => wrap(signed(a, from), to),
        Convert::Uextend => wrap(a, to),
        Convert::Ireduce => wrap(a, to),
        Convert::FcvtFromSint => (m.nearest)(to, signed(a, from)),
        Convert::FcvtFromUint => (m.nearest)(to, a),
        Convert::FcvtToSintSat => (m.saturated)(from, a, NumericKind::Signed(to as u32)),
        Convert::FcvtToUintSat => (m.saturated)(from, a, NumericKind::Unsigned(to as u32)),
        Convert::Fpromote => (m.resized)(from, a, to),
        Convert::Fdemote => (m.resized)(from, a, to),
    }
}

/// Where a slot starts.
pub open spec fn slot_at(w: World, slot: usize) -> int {
    w.slots[slot as int]
}

/// What an instruction defines and leaves in memory; nothing where it leads out
/// of the block or out of the function.
pub open spec fn effect(
    w: World,
    steps: Seq<Step>,
    m: Machine,
    op: Op,
    ty: Option<IrType>,
) -> Option<Machine> {
    let width = match ty {
        Some(ty) => bits_in(ty),
        None => 0,
    };
    let bytes = match ty {
        Some(ty) => ty.width(),
        None => 0,
    };
    match op {
        Op::Param(index) => Some(m.having(given(w, index))),
        Op::Iconst(number) => Some(m.having(wrap(whole_of(number), width))),
        Op::F32Const(bits) => Some(m.having(word_of(bits))),
        Op::F64Const(bits) => Some(m.having(long_of(bits))),
        Op::StackAddr { slot, offset } => Some(m.having(slot_at(w, slot) + offset)),
        Op::StackLoad { slot, offset } => Some(
            m.having(read(m.memory, slot_at(w, slot) + offset, bytes)),
        ),
        Op::Load { base, offset } => Some(
            m.having(read(m.memory, value(m, base) + offset, bytes)),
        ),
        Op::StackStore { value: stored, slot, offset } => Some(
            m.storing(slot_at(w, slot) + offset, bits_at(steps, stored) / 8, value(m, stored)),
        ),
        Op::Store { value: stored, base, offset } => Some(
            m.storing(value(m, base) + offset, bits_at(steps, stored) / 8, value(m, stored)),
        ),
        Op::GlobalAddr(id) => Some(m.having((w.globals)(id))),
        Op::FuncAddr(id) => Some(m.having((w.functions)(id))),
        Op::DataAddr(index) => Some(m.having(data_at(w, index))),
        Op::VtableAddr(index) => Some(m.having(table_at(w, index))),
        Op::Binary { op: arith, left, right } => match computed(
            w.floats,
            arith,
            bits_at(steps, left),
            value(m, left),
            value(m, right),
        ) {
            Some(result) => Some(m.having(result)),
            None => None,
        },
        Op::Icmp { cc, left, right } => Some(
            m.having(
                truth(ordered(cc, bits_at(steps, left), value(m, left), value(m, right))),
            ),
        ),
        Op::Fcmp { cc, left, right } => Some(
            m.having(
                truth(
                    floats_ordered(
                        w.floats,
                        cc,
                        bits_at(steps, left),
                        value(m, left),
                        value(m, right),
                    ),
                ),
            ),
        ),
        Op::Ineg(of) => Some(m.having(wrap(-value(m, of), bits_at(steps, of)))),
        Op::Fneg(of) => Some(
            m.having((w.floats.negated)(bits_at(steps, of), value(m, of))),
        ),
        Op::Bnot(of) => Some(m.having(wrap(-1 - value(m, of), bits_at(steps, of)))),
        Op::IaddImm { value: of, imm } => Some(
            m.having(wrap(value(m, of) + imm, bits_at(steps, of))),
        ),
        Op::Convert { op: convert, value: of } => Some(
            m.having(
                converted_to(w.floats, convert, bits_at(steps, of), width, value(m, of)),
            ),
        ),
        Op::Pass(of) => Some(m.having(value(m, of))),
        Op::Enter(_) => Some(m.having(0)),
        Op::CallIndirect { .. } => None,
        Op::CallResult { .. } => None,
        Op::Jump(_) => None,
        Op::Brif { .. } => None,
        Op::Return { .. } => None,
        Op::Trap => None,
    }
}

/// A parameter.
pub open spec fn given(w: World, index: usize) -> int {
    w.params[index as int]
}

/// Where constant data lies.
pub open spec fn data_at(w: World, index: usize) -> int {
    w.data[index as int]
}

/// Where a table lies.
pub open spec fn table_at(w: World, index: usize) -> int {
    w.tables[index as int]
}

/// A number as such.
pub open spec fn whole_of(number: i64) -> int {
    number as int
}

/// Bits as such.
pub open spec fn word_of(bits: u32) -> int {
    bits as int
}

/// Bits as such.
pub open spec fn long_of(bits: u64) -> int {
    bits as int
}

/// The machine once all instructions it has not run yet have been run.
pub open spec fn run(w: World, steps: Seq<Step>, m: Machine) -> Option<Machine>
    decreases steps.len() - m.values.len(),
{
    if m.values.len() >= steps.len() {
        Some(m)
    } else {
        let step = steps[m.values.len() as int];
        match effect(w, steps.take(m.values.len() as int), m, step.op, step.ty) {
            Some(next) => if next.values.len() == m.values.len() + 1 {
                run(w, steps, next)
            } else {
                None
            },
            None => None,
        }
    }
}

/// Whether instructions start with others.
pub open spec fn begins(steps: Seq<Step>, start: Seq<Step>) -> bool {
    start.len() <= steps.len() && steps.take(start.len() as int) == start
}

/// One more instruction is run last.
pub(crate) proof fn lemma_run_one(w: World, s: LoweringView, m: Machine, op: Op, ty: Option<IrType>)
    requires
        m.values.len() == s.steps.len(),
        effect(w, s.steps, m, op, ty) is Some,
    ensures
        run(w, s.push(op, ty).steps, m) == effect(w, s.steps, m, op, ty),
        begins(s.push(op, ty).steps, s.steps),
        continues(m, effect(w, s.steps, m, op, ty)->0),
        effect(w, s.steps, m, op, ty)->0.values.len() == s.steps.len() + 1,
{
    let steps = s.push(op, ty).steps;
    assert(steps.take(s.steps.len() as int) =~= s.steps);
    let next = effect(w, s.steps, m, op, ty)->0;
    assert(run(w, steps, next) == Some(next));
}

/// Running on from where a machine has come is the same as running at once.
pub(crate) proof fn lemma_run_on(w: World, a: Seq<Step>, b: Seq<Step>, m: Machine)
    requires
        begins(b, a),
        m.values.len() <= a.len(),
        run(w, a, m) is Some,
    ensures
        run(w, a, m)->0.values.len() == a.len(),
        continues(m, run(w, a, m)->0),
        run(w, b, m) == run(w, b, run(w, a, m)->0),
    decreases a.len() - m.values.len(),
{
    if m.values.len() < a.len() {
        let n = m.values.len() as int;
        let step = a[n];
        assert(b.take(a.len() as int)[n] == b[n]);
        assert(a.take(n) =~= b.take(n)) by {
            assert forall|i: int| 0 <= i < n implies a.take(n)[i] == b.take(n)[i] by {
                assert(b.take(a.len() as int)[i] == b[i]);
            }
        }
        let next = effect(w, a.take(n), m, step.op, step.ty)->0;
        lemma_run_on(w, a, b, next);
    }
}

pub(crate) proof fn lemma_begins_all(a: Seq<Step>, b: Seq<Step>, c: Seq<Step>)
    requires
        begins(b, a),
        begins(c, b),
    ensures
        begins(c, a),
{
    assert(c.take(a.len() as int) =~= b.take(a.len() as int)) by {
        assert forall|i: int| 0 <= i < a.len() implies c.take(a.len() as int)[i] == b.take(
            a.len() as int,
        )[i] by {
            assert(c.take(b.len() as int)[i] == c[i]);
        }
    }
}

pub(crate) proof fn lemma_begins_itself(a: Seq<Step>)
    ensures
        begins(a, a),
{
    assert(a.take(a.len() as int) =~= a);
}

/// Whether an instruction has defined something of a type.
pub open spec fn held(s: LoweringView, m: Machine, index: usize, ty: IrType, bits: int) -> bool {
    &&& index < s.steps.len()
    &&& s.type_of(index) == Some(ty)
    &&& value(m, index) == bits
    &&& !is_floating(ty) ==> fits(bits, bits_in(ty))
}

pub(crate) proof fn lemma_held(
    a: LoweringView,
    x: Machine,
    b: LoweringView,
    y: Machine,
    index: usize,
    ty: IrType,
    bits: int,
)
    requires
        begins(b.steps, a.steps),
        x.values.len() == a.steps.len(),
        continues(x, y),
        held(a, x, index, ty, bits),
    ensures
        held(b, y, index, ty, bits),
{
    assert(b.steps.take(a.steps.len() as int)[index as int] == b.steps[index as int]);
}

} // verus!
