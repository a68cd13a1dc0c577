//! That operators and casts compute what they mean.

use crate::codegen::llvm::{
    int_value, Arith, Convert, IntPredicate, LoweringView, Op, Value, ValueType,
};
use crate::codegen::llvm::evaluation::{
    amount, bits_in, computed, effect, gives, held, is_floating, lemma_begins_itself,
    lemma_gives_then, lemma_run_one, ordered, run, World,
};
use crate::codegen::llvm::scalar::{
    as_condition, as_flag, as_integer, float_arith, float_cast, float_predicate, float_to_int,
    int_arith, int_cast, int_of_bits, int_predicate, int_to_float, operated, resized,
};
use crate::codegen::machine::{
    fits, law_numbers_read_back, law_quotient_and_remainder, lemma_bitwise_fits,
    lemma_numbers_differ, lemma_ring, lemma_scaled, lemma_wrap_fits, lemma_wrap_small, meaning,
    number, quotient, remainder, signed, truth, whole, wrap, Floats, Machine,
};
use crate::resolved_type::NumericKind;
use crate::syntax::BinaryOp;
use vstd::arithmetic::power2::{lemma_pow2_pos, pow2};
use vstd::prelude::*;

verus! {

/// Whether values of a type are numbers of a kind.
pub open spec fn of_kind(ty: ValueType, kind: NumericKind, pointer_bytes: u32) -> bool {
    &&& bits_in(ty, pointer_bytes) == kind.width()
    &&& is_floating(ty) == (kind is Float)
    &&& kind is Float || ty.integral()
    &&& kind.width() > 0
}

proof fn lemma_divided(a: int, b: int, kind: NumericKind)
    requires
        fits(a, kind.width() as nat),
        fits(b, kind.width() as nat),
        !(kind is Float),
        kind.width() > 0,
        number(b, kind) != 0,
        whole(quotient(number(a, kind), number(b, kind)), kind),
    ensures
        b != 0,
        kind is Signed ==> 2 * quotient(
            signed(a, kind.width() as nat),
            signed(b, kind.width() as nat),
        ) < pow2(kind.width() as nat),
        kind is Unsigned ==> wrap(quotient(a, b), kind.width() as nat) == a / b && wrap(
            remainder(a, b),
            kind.width() as nat,
        ) == a % b,
{
    let w = kind.width() as nat;
    lemma_pow2_pos(w);
    if kind is Unsigned {
        lemma_wrap_small(a / b, w);
        law_quotient_and_remainder(a, b);
        vstd::arithmetic::div_mod::lemma_fundamental_div_mod(a, b);
        assert(remainder(a, b) == a % b);
        lemma_wrap_small(a % b, w);
    }
}

proof fn lemma_shifted(a: int, by: int, kind: NumericKind)
    requires
        fits(a, kind.width() as nat),
        kind is Unsigned,
        0 <= by,
    ensures
        wrap(a / (pow2(by as nat) as int), kind.width() as nat) == a / (pow2(by as nat) as int),
{
    lemma_pow2_pos(by as nat);
    let p = pow2(by as nat) as int;
    assert(0 <= a / p <= a) by (nonlinear_arith)
        requires
            a >= 0,
            p >= 1,
    ;
    lemma_wrap_small(a / p, kind.width() as nat);
}

proof fn lemma_computes(m: Floats, op: BinaryOp, kind: NumericKind, arith: Arith, a: int, b: int)
    requires
        !(kind is Float),
        int_arith(op, kind is Signed) == Some(arith),
        kind.width() > 0,
        fits(a, kind.width() as nat),
        fits(b, kind.width() as nat),
        meaning(m, op, kind, a, b) is Some,
    ensures
        computed(m, arith, kind.width() as nat, a, b) == meaning(m, op, kind, a, b),
        fits(meaning(m, op, kind, a, b)->0, kind.width() as nat),
{
    let w = kind.width() as nat;
    let x = number(a, kind);
    let y = number(b, kind);
    lemma_ring(a, b, kind);
    lemma_wrap_fits(x + y, w);
    lemma_wrap_fits(x - y, w);
    lemma_wrap_fits(x * y, w);
    lemma_bitwise_fits(a, b, w, |p: bool, q: bool| p && q);
    lemma_bitwise_fits(a, b, w, |p: bool, q: bool| p || q);
    lemma_bitwise_fits(a, b, w, |p: bool, q: bool| p != q);
    match op {
        BinaryOp::Div => {
            lemma_divided(a, b, kind);
            lemma_wrap_fits(quotient(x, y), w);
        },
        BinaryOp::Rem => {
            lemma_divided(a, b, kind);
            lemma_wrap_fits(remainder(x, y), w);
        },
        BinaryOp::Shl => {
            lemma_scaled(a, pow2(b as nat) as int, kind);
            lemma_wrap_fits(a * pow2(b as nat), w);
        },
        BinaryOp::Shr => {
            if kind is Unsigned {
                lemma_shifted(a, b, kind);
            }
            lemma_wrap_fits(x / (pow2(b as nat) as int), w);
        },
        _ => {},
    }
}

proof fn lemma_small()
    ensures
        fits(0, 8),
        fits(1, 8),
        fits(0, 1),
        fits(1, 1),
        wrap(0, 8) == 0,
        wrap(1, 8) == 1,
{
    vstd::arithmetic::power2::lemma2_to64();
}

/// A flag of one bit becomes a byte.
proof fn lemma_flagged(w: World, s: LoweringView, m: Machine, op: Op, holds: bool)
    requires
        s.steps.len() + 1 < usize::MAX,
        m.values.len() == s.steps.len(),
        effect(w, m, op, Some(ValueType::I1)) == Some(m.having(truth(holds))),
    ensures
        ({
            let compared = s.define(op, ValueType::I1);
            gives(
                w,
                s,
                m,
                as_flag(compared.state, compared.values[0]),
                ValueType::I8,
                truth(holds),
            )
        }),
{
    lemma_small();
    let compared = s.define(op, ValueType::I1);
    lemma_run_one(w, s, m, op, Some(ValueType::I1));
    let mid = m.having(truth(holds));
    let flag = Op::Convert { op: Convert::ZeroExtend, value: compared.values[0] };
    lemma_run_one(w, compared.state, mid, flag, Some(ValueType::I8));
    assert(gives(w, s, m, compared, ValueType::I1, truth(holds)));
    assert(gives(
        w,
        compared.state,
        mid,
        as_flag(compared.state, compared.values[0]),
        ValueType::I8,
        truth(holds),
    ));
    lemma_gives_then(
        w,
        s,
        m,
        compared,
        as_flag(compared.state, compared.values[0]),
        ValueType::I1,
        truth(holds),
        ValueType::I8,
        truth(holds),
    );
}

/// Whether an operator decides rather than computes.
pub open spec fn decides(op: BinaryOp) -> bool {
    op is Eq || op is Ne || op is Lt || op is Le || op is Gt || op is Ge
}

/// Running what an operator on two values lowers to gives what the operator
/// means for the numbers they are: the sum, the difference, the product, the
/// quotient and so on, in as many bits as they have; and for a comparison, one
/// or zero in a byte. On integers every operator is lowered.
pub proof fn law_operators_compute(
    w: World,
    s: LoweringView,
    m: Machine,
    op: BinaryOp,
    kind: NumericKind,
    left: Value,
    right: Value,
    a: int,
    b: int,
)
    requires
        s.steps.len() + 2 < usize::MAX,
        m.values.len() == s.steps.len(),
        left.ty == right.ty,
        of_kind(left.ty, kind, w.pointer_bytes),
        held(w, s, m, left, a),
        held(w, s, m, right, b),
    ensures
        !(kind is Float) ==> operated(s, op, kind, left, right, w.pointer_bytes) is Some,
        meaning(w.floats, op, kind, a, b) is Some ==> {
            &&& operated(s, op, kind, left, right, w.pointer_bytes) matches Some(lowered)
            &&& gives(
                w,
                s,
                m,
                lowered,
                if decides(op) {
                    ValueType::I8
                } else {
                    left.ty
                },
                meaning(w.floats, op, kind, a, b)->0,
            )
        },
{
    let pb = w.pointer_bytes;
    if kind is Float {
        if meaning(w.floats, op, kind, a, b) is Some {
            match float_arith(op) {
                Some(arith) => {
                    let step = Op::Binary { op: arith, left, right };
                    lemma_run_one(w, s, m, step, Some(left.ty));
                },
                None => {
                    let predicate = float_predicate(op)->0;
                    let step = Op::FloatCompare { predicate, left, right };
                    let holds = crate::codegen::llvm::evaluation::floats_ordered(
                        w.floats,
                        predicate,
                        kind.width() as nat,
                        a,
                        b,
                    );
                    lemma_flagged(w, s, m, step, holds);
                },
            }
        }
    } else {
        assert(as_integer(s, left, pb) == Some(s.having(left)));
        assert(as_integer(s, right, pb) == Some(s.having(right)));
        let signed = kind is Signed;
        match int_arith(op, signed) {
            Some(arith) => {
                if meaning(w.floats, op, kind, a, b) is Some {
                    lemma_computes(w.floats, op, kind, arith, a, b);
                    let step = Op::Binary { op: arith, left, right };
                    lemma_run_one(w, s, m, step, Some(left.ty));
                }
            },
            None => {
                let predicate = int_predicate(op, signed)->0;
                lemma_numbers_differ(a, b, kind);
                let holds = ordered(predicate, kind.width() as nat, a, b);
                assert(meaning(w.floats, op, kind, a, b) == Some(truth(holds)));
                lemma_flagged(w, s, m, Op::IntCompare { predicate, left, right }, holds);
            },
        }
    }
}

/// A condition is one bit that says whether a value is other than zero.
pub proof fn law_conditions_say_whether_a_value_is_zero(
    w: World,
    s: LoweringView,
    m: Machine,
    value: Value,
    a: int,
)
    requires
        s.steps.len() < usize::MAX,
        m.values.len() == s.steps.len(),
        value.ty.integral(),
        held(w, s, m, value, a),
    ensures
        as_condition(s, value) matches Some(lowered) && gives(
            w,
            s,
            m,
            lowered,
            ValueType::I1,
            truth(a != 0),
        ),
{
    lemma_small();
    vstd::arithmetic::power2::lemma2_to64();
    if value.ty is I1 {
        lemma_begins_itself(s.steps);
    } else {
        let zero = int_value(value.ty, 0);
        lemma_pow2_pos(bits_in(value.ty, w.pointer_bytes));
        lemma_wrap_small(0, bits_in(value.ty, w.pointer_bytes));
        let step = Op::IntCompare { predicate: IntPredicate::NE, left: value, right: zero };
        lemma_run_one(w, s, m, step, Some(ValueType::I1));
    }
}

/// The bits an integer has in another width: the number stays, read as its sign
/// says, where there is room, and the low bits stay where there is not.
pub open spec fn in_width(bits: int, from: nat, to: nat, is_signed: bool) -> int {
    if from < to && is_signed {
        wrap(signed(bits, from), to)
    } else {
        wrap(bits, to)
    }
}

/// Whether integers of a type can be asked for by their bits.
pub open spec fn is_word(ty: ValueType) -> bool {
    ty is I8 || ty is I16 || ty is I32 || ty is I64
}

/// Running what a cast between integers lowers to keeps the number where there
/// is room for it, read as signed or unsigned as the cast says, and keeps the
/// low bits where there is not.
pub proof fn law_integer_casts_keep_the_number(
    w: World,
    s: LoweringView,
    m: Machine,
    value: Value,
    target: ValueType,
    is_signed: bool,
    a: int,
)
    requires
        s.steps.len() < usize::MAX,
        m.values.len() == s.steps.len(),
        is_word(value.ty),
        is_word(target),
        held(w, s, m, value, a),
    ensures
        int_cast(s, value, target, is_signed, w.pointer_bytes) matches Some(lowered) && gives(
            w,
            s,
            m,
            lowered,
            target,
            in_width(
                a,
                bits_in(value.ty, w.pointer_bytes),
                bits_in(target, w.pointer_bytes),
                is_signed,
            ),
        ),
        bits_in(value.ty, w.pointer_bytes) <= bits_in(target, w.pointer_bytes) ==> number(
            in_width(
                a,
                bits_in(value.ty, w.pointer_bytes),
                bits_in(target, w.pointer_bytes),
                is_signed,
            ),
            if is_signed {
                NumericKind::Signed(bits_in(target, w.pointer_bytes) as u32)
            } else {
                NumericKind::Unsigned(bits_in(target, w.pointer_bytes) as u32)
            },
        ) == number(
            a,
            if is_signed {
                NumericKind::Signed(bits_in(value.ty, w.pointer_bytes) as u32)
            } else {
                NumericKind::Unsigned(bits_in(value.ty, w.pointer_bytes) as u32)
            },
        ),
{
    let from = bits_in(value.ty, w.pointer_bytes);
    let to = bits_in(target, w.pointer_bytes);
    assert(as_integer(s, value, w.pointer_bytes) == Some(s.having(value)));
    assert(int_of_bits(to as u32) == target);
    lemma_wrap_fits(a, to);
    lemma_wrap_fits(signed(a, from), to);
    if from < to {
        vstd::arithmetic::power2::lemma_pow2_strictly_increases(from, to);
        lemma_wrap_small(a, to);
        law_numbers_read_back(signed(a, from), NumericKind::Signed(to as u32));
        let op = Op::Convert {
            op: if is_signed {
                Convert::SignExtend
            } else {
                Convert::ZeroExtend
            },
            value,
        };
        lemma_run_one(w, s, m, op, Some(target));
    } else if from > to {
        lemma_run_one(
            w,
            s,
            m,
            Op::Convert { op: Convert::Truncate, value },
            Some(target),
        );
    } else {
        lemma_begins_itself(s.steps);
        lemma_wrap_small(a, to);
        assert(value.ty == target);
    }
}

/// An integer becomes the float nearest to the number it is, read as signed or
/// unsigned as the cast says.
pub proof fn law_integers_become_the_nearest_float(
    w: World,
    s: LoweringView,
    m: Machine,
    value: Value,
    target: ValueType,
    is_signed: bool,
    a: int,
)
    requires
        s.steps.len() < usize::MAX,
        m.values.len() == s.steps.len(),
        is_word(value.ty),
        is_floating(target),
        held(w, s, m, value, a),
    ensures
        int_to_float(s, value, target, is_signed, w.pointer_bytes) matches Some(lowered) && gives(
            w,
            s,
            m,
            lowered,
            target,
            (w.floats.nearest)(
                bits_in(target, w.pointer_bytes),
                if is_signed {
                    signed(a, bits_in(value.ty, w.pointer_bytes))
                } else {
                    a
                },
            ),
        ),
{
    assert(as_integer(s, value, w.pointer_bytes) == Some(s.having(value)));
    let op = Op::Convert {
        op: if is_signed {
            Convert::SignedIntToFloat
        } else {
            Convert::UnsignedIntToFloat
        },
        value,
    };
    lemma_run_one(w, s, m, op, Some(target));
}

/// A float becomes the nearest number that the target has, signed or unsigned
/// as the cast says.
pub proof fn law_floats_become_the_nearest_integer(
    w: World,
    s: LoweringView,
    m: Machine,
    value: Value,
    target: ValueType,
    is_signed: bool,
    a: int,
)
    requires
        s.steps.len() < usize::MAX,
        m.values.len() == s.steps.len(),
        is_floating(value.ty),
        is_word(target),
        held(w, s, m, value, a),
    ensures
        float_to_int(s, value, target, is_signed, w.pointer_bytes) matches Some(lowered)
            && lowered.values.len() == 1 && lowered.values[0].ty == target && ({
            let after = run(w, lowered.state.steps, m);
            after is Some && amount(w, after->0, lowered.values[0]) == (w.floats.saturated)(
                bits_in(value.ty, w.pointer_bytes),
                a,
                if is_signed {
                    NumericKind::Signed(bits_in(target, w.pointer_bytes) as u32)
                } else {
                    NumericKind::Unsigned(bits_in(target, w.pointer_bytes) as u32)
                },
            )
        }),
{
    let op = Op::Convert {
        op: if is_signed {
            Convert::FloatToSignedInt
        } else {
            Convert::FloatToUnsignedInt
        },
        value,
    };
    lemma_run_one(w, s, m, op, Some(target));
}

/// A float becomes the same float in another width.
pub proof fn law_floats_change_their_width(
    w: World,
    s: LoweringView,
    m: Machine,
    value: Value,
    target: ValueType,
    op: Convert,
    a: int,
)
    requires
        s.steps.len() < usize::MAX,
        m.values.len() == s.steps.len(),
        is_floating(value.ty),
        is_floating(target),
        op is FloatExtend || op is FloatTruncate,
        held(w, s, m, value, a),
    ensures
        float_cast(s, value, target, op) matches Some(lowered) && gives(
            w,
            s,
            m,
            lowered,
            target,
            (w.floats.resized)(
                bits_in(value.ty, w.pointer_bytes),
                a,
                bits_in(target, w.pointer_bytes),
            ),
        ),
{
    lemma_run_one(w, s, m, Op::Convert { op, value }, Some(target));
}

} // verus!
