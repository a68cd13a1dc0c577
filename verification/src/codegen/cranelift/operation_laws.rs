//! That operators and casts compute what they mean.

use crate::checked::CastKind;
use crate::codegen::cranelift::{Arith, Convert, IrType, Lowered, LoweringView, Op};
use crate::codegen::cranelift::evaluation::{
    begins, bits_at, bits_in, computed, held, is_floating, lemma_run_one, ordered, run, World,
};
use crate::codegen::cranelift::expr::{arith_of, conversion, converted, float_cc, int_cc, operated};
use crate::codegen::machine::{
    continues, fits, law_quotient_and_remainder, lemma_bitwise_fits, lemma_numbers_differ,
    lemma_ring, lemma_scaled, lemma_wrap_fits, lemma_wrap_small, meaning, number, quotient,
    remainder, signed, value, whole, wrap, Floats, Machine,
};
use crate::resolved_type::{NumericKind, ResolvedType};
use crate::syntax::BinaryOp;
use vstd::arithmetic::power2::{lemma_pow2_pos, pow2};
use vstd::prelude::*;

verus! {

/// Whether values of a type are numbers of a kind.
pub open spec fn of_kind(ty: IrType, kind: NumericKind) -> bool {
    bits_in(ty) == kind.width() && is_floating(ty) == (kind is Float)
}

proof fn lemma_divided(a: int, b: int, kind: NumericKind)
    requires
        fits(a, kind.width() as nat),
        fits(b, kind.width() as nat),
        !(kind is Float),
        kind.width() > 0,
        number(b, kind) != 0,
        whole(quotient(number(a, kind), number(b, kind)), kind),
    ensures
        b != 0,
        kind is Signed ==> 2 * quotient(
            signed(a, kind.width() as nat),
            signed(b, kind.width() as nat),
        ) < pow2(kind.width() as nat),
        kind is Unsigned ==> wrap(quotient(a, b), kind.width() as nat) == a / b && wrap(
            remainder(a, b),
            kind.width() as nat,
        ) == a % b,
{
    let w = kind.width() as nat;
    lemma_pow2_pos(w);
    if kind is Unsigned {
        lemma_wrap_small(a / b, w);
        law_quotient_and_remainder(a, b);
        vstd::arithmetic::div_mod::lemma_fundamental_div_mod(a, b);
        assert(remainder(a, b) == a % b);
        lemma_wrap_small(a % b, w);
    }
}

proof fn lemma_shifted(a: int, by: int, kind: NumericKind)
    requires
        fits(a, kind.width() as nat),
        !(kind is Float),
        0 <= by < kind.width(),
    ensures
        by % (kind.width() as int) == by,
        kind is Unsigned ==> wrap(a / (pow2(by as nat) as int), kind.width() as nat) == a / (
        pow2(by as nat) as int),
{
    vstd::arithmetic::div_mod::lemma_small_mod(by as nat, kind.width() as nat);
    if kind is Unsigned {
        lemma_pow2_pos(by as nat);
        let p = pow2(by as nat) as int;
        assert(0 <= a / p <= a) by (nonlinear_arith)
            requires
                a >= 0,
                p >= 1,
        ;
        lemma_wrap_small(a / p, kind.width() as nat);
    }
}

/// What the operation of an operator gives is what the operator means.
proof fn lemma_computes(m: Floats, op: BinaryOp, kind: NumericKind, arith: Arith, a: int, b: int)
    requires
        arith_of(op, kind) == Some(arith),
        kind.width() > 0,
        !(kind is Float) ==> fits(a, kind.width() as nat) && fits(b, kind.width() as nat),
        meaning(m, op, kind, a, b) is Some,
    ensures
        computed(m, arith, kind.width() as nat, a, b) == meaning(m, op, kind, a, b),
        !(kind is Float) ==> fits(meaning(m, op, kind, a, b)->0, kind.width() as nat),
{
    let w = kind.width() as nat;
    if !(kind is Float) {
        let x = number(a, kind);
        let y = number(b, kind);
        lemma_ring(a, b, kind);
        lemma_wrap_fits(x + y, w);
        lemma_wrap_fits(x - y, w);
        lemma_wrap_fits(x * y, w);
        lemma_bitwise_fits(a, b, w, |p: bool, q: bool| p && q);
        lemma_bitwise_fits(a, b, w, |p: bool, q: bool| p || q);
        lemma_bitwise_fits(a, b, w, |p: bool, q: bool| p != q);
        match op {
            BinaryOp::Div => {
                lemma_divided(a, b, kind);
                lemma_wrap_fits(quotient(x, y), w);
            },
            BinaryOp::Rem => {
                lemma_divided(a, b, kind);
                lemma_wrap_fits(remainder(x, y), w);
            },
            BinaryOp::Shl => {
                lemma_shifted(a, b, kind);
                lemma_scaled(a, pow2(b as nat) as int, kind);
                lemma_wrap_fits(a * pow2(b as nat), w);
            },
            BinaryOp::Shr => {
                lemma_shifted(a, b, kind);
                lemma_wrap_fits(x / (pow2(b as nat) as int), w);
            },
            _ => {},
        }
    }
}

proof fn lemma_decides(op: BinaryOp, kind: NumericKind, a: int, b: int)
    requires
        !(kind is Float),
        fits(a, kind.width() as nat),
        fits(b, kind.width() as nat),
        int_cc(op, kind is Signed) is Some,
    ensures
        ({
            let x = number(a, kind);
            let y = number(b, kind);
            let holds = ordered(int_cc(op, kind is Signed)->0, kind.width() as nat, a, b);
            match op {
                BinaryOp::Eq => holds == (x == y),
                BinaryOp::Ne => holds == (x != y),
                BinaryOp::Lt => holds == (x < y),
                BinaryOp::Le => holds == (x <= y),
                BinaryOp::Gt => holds == (x > y),
                BinaryOp::Ge => holds == (x >= y),
                _ => false,
            }
        }),
{
    lemma_numbers_differ(a, b, kind);
}

/// Whether an operator decides rather than computes.
pub open spec fn decides(op: BinaryOp) -> bool {
    op is Eq || op is Ne || op is Lt || op is Le || op is Gt || op is Ge
}

/// Running what an operator on two values lowers to gives what the operator
/// means for the numbers they are: the sum, the difference, the product, the
/// quotient and so on, in as many bits as they have; and for a comparison, one
/// or zero in a byte. On integers every operator is lowered.
pub proof fn law_operators_compute(
    w: World,
    s: LoweringView,
    m: Machine,
    op: BinaryOp,
    kind: NumericKind,
    ty: IrType,
    left: usize,
    right: usize,
    a: int,
    b: int,
)
    requires
        s.steps.len() < usize::MAX,
        m.values.len() == s.steps.len(),
        of_kind(ty, kind),
        held(s, m, left, ty, a),
        held(s, m, right, ty, b),
    ensures
        !(kind is Float) ==> operated(s, op, kind, left, right) is Some,
        meaning(w.floats, op, kind, a, b) is Some ==> {
            &&& operated(s, op, kind, left, right) matches Some(lowered)
            &&& lowered.values.len() == 1
            &&& begins(lowered.state.steps, s.steps)
            &&& run(w, lowered.state.steps, m) matches Some(after)
            &&& continues(m, after)
            &&& after.memory == m.memory
            &&& held(
                lowered.state,
                after,
                lowered.values[0],
                if decides(op) {
                    IrType::I8
                } else {
                    ty
                },
                meaning(w.floats, op, kind, a, b)->0,
            )
        },
{
    let width = bits_in(ty);
    assert(bits_at(s.steps, left) == width);
    if meaning(w.floats, op, kind, a, b) is Some {
        match arith_of(op, kind) {
            Some(arith) => {
                lemma_computes(w.floats, op, kind, arith, a, b);
                lemma_run_one(w, s, m, Op::Binary { op: arith, left, right }, Some(ty));
            },
            None => {
                lemma_fits_a_byte();
                lemma_compared(w, s, m, op, kind, ty, left, right, a, b);
            },
        }
    }
}

proof fn lemma_fits_a_byte()
    ensures
        fits(0, 8),
        fits(1, 8),
{
    vstd::arithmetic::power2::lemma2_to64();
}

proof fn lemma_compared(
    w: World,
    s: LoweringView,
    m: Machine,
    op: BinaryOp,
    kind: NumericKind,
    ty: IrType,
    left: usize,
    right: usize,
    a: int,
    b: int,
)
    requires
        s.steps.len() < usize::MAX,
        m.values.len() == s.steps.len(),
        of_kind(ty, kind),
        held(s, m, left, ty, a),
        held(s, m, right, ty, b),
        arith_of(op, kind) is None,
        meaning(w.floats, op, kind, a, b) is Some,
        fits(0, 8),
        fits(1, 8),
    ensures
        operated(s, op, kind, left, right) matches Some(lowered) && {
            &&& lowered.values.len() == 1
            &&& begins(lowered.state.steps, s.steps)
            &&& run(w, lowered.state.steps, m) matches Some(after)
            &&& continues(m, after)
            &&& after.memory == m.memory
            &&& held(
                lowered.state,
                after,
                lowered.values[0],
                IrType::I8,
                meaning(w.floats, op, kind, a, b)->0,
            )
        },
        decides(op),
{
    match kind {
        NumericKind::Float(_) => {
            let step = Op::Fcmp { cc: float_cc(op)->0, left, right };
            lemma_run_one(w, s, m, step, Some(IrType::I8));
        },
        _ => {
            lemma_decides(op, kind, a, b);
            let step = Op::Icmp { cc: int_cc(op, kind is Signed)->0, left, right };
            lemma_run_one(w, s, m, step, Some(IrType::I8));
        },
    }
}

/// What a cast of a number means, by the bits it has and the width they come
/// in: extending keeps the number, read as its sign says; truncating keeps the
/// low bits; and floats are taken to the nearest number and back.
pub open spec fn cast_meaning(m: Floats, kind: CastKind, from: nat, to: nat, bits: int) -> Option<
    int,
> {
    match kind {
        CastKind::IntExtend { signed: true } => Some(wrap(signed(bits, from), to)),
        CastKind::IntExtend { signed: false } => Some(wrap(bits, to)),
        CastKind::IntTruncate => Some(wrap(bits, to)),
        CastKind::IntToFloat { signed: true } => Some((m.nearest)(to, signed(bits, from))),
        CastKind::IntToFloat { signed: false } => Some((m.nearest)(to, bits)),
        CastKind::FloatToInt { signed: true } => Some(
            (m.saturated)(from, bits, NumericKind::Signed(to as u32)),
        ),
        CastKind::FloatToInt { signed: false } => Some(
            (m.saturated)(from, bits, NumericKind::Unsigned(to as u32)),
        ),
        CastKind::FloatExtend => Some((m.resized)(from, bits, to)),
        CastKind::FloatTruncate => Some((m.resized)(from, bits, to)),
        _ => None,
    }
}

/// Running what a cast of one value lowers to gives what the cast means.
pub proof fn law_casts_convert(
    w: World,
    base: Lowered,
    m: Machine,
    kind: CastKind,
    source: ResolvedType,
    from: IrType,
    to: IrType,
    pointer_bytes: u32,
    bits: int,
)
    requires
        base.state.steps.len() < usize::MAX,
        m.values.len() == base.state.steps.len(),
        base.values.len() > 0,
        held(base.state, m, base.values[0], from, bits),
        cast_meaning(w.floats, kind, bits_in(from), bits_in(to), bits) is Some,
    ensures
        converted(base, kind, source, to, pointer_bytes) matches Some(lowered) && {
            &&& lowered.values.len() == 1
            &&& begins(lowered.state.steps, base.state.steps)
            &&& run(w, lowered.state.steps, m) matches Some(after)
            &&& continues(m, after)
            &&& after.memory == m.memory
            &&& lowered.values[0] < lowered.state.steps.len()
            &&& lowered.state.type_of(lowered.values[0]) == Some(to)
            &&& value(after, lowered.values[0]) == cast_meaning(
                w.floats,
                kind,
                bits_in(from),
                bits_in(to),
                bits,
            )->0
        },
{
    let op = Op::Convert { op: conversion(kind)->0, value: base.values[0] };
    lemma_run_one(w, base.state, m, op, Some(to));
}

/// Extending an integer keeps the number it is, read as signed where it is
/// signed, and as unsigned where it is not.
pub proof fn law_extending_keeps_the_number(m: Floats, from: u32, to: u32, bits: int)
    requires
        0 < from <= to,
        fits(bits, from as nat),
    ensures
        number(
            cast_meaning(m, CastKind::IntExtend { signed: true }, from as nat, to as nat, bits)->0,
            NumericKind::Signed(to),
        ) == number(bits, NumericKind::Signed(from)),
        number(
            cast_meaning(
                m,
                CastKind::IntExtend { signed: false },
                from as nat,
                to as nat,
                bits,
            )->0,
            NumericKind::Unsigned(to),
        ) == bits,
{
    if from < to {
        vstd::arithmetic::power2::lemma_pow2_strictly_increases(from as nat, to as nat);
    }
    lemma_wrap_small(bits, to as nat);
    crate::codegen::machine::law_numbers_read_back(
        signed(bits, from as nat),
        NumericKind::Signed(to),
    );
}

} // verus!
