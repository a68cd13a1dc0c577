//! What a machine computes: numbers in a given count of bits, and what the
//! operators and casts of the language mean for them.

use crate::resolved_type::{NumericKind, ResolvedType};
use crate::syntax::BinaryOp;
use vstd::arithmetic::div_mod::{
    lemma_fundamental_div_mod, lemma_mod_bound, lemma_small_mod,
};
use vstd::arithmetic::power2::{lemma_pow2_pos, lemma_pow2_unfold, pow2};
use vstd::prelude::*;

verus! {

/// The bits of a number in a register of `width` bits.
pub open spec fn wrap(x: int, width: nat) -> int {
    x % (pow2(width) as int)
}

/// Whether bits fit a register of `width` bits.
pub open spec fn fits(bits: int, width: nat) -> bool {
    0 <= bits < pow2(width)
}

/// The number that bits are, read as two's complement.
pub open spec fn signed(bits: int, width: nat) -> int {
    if 2 * bits < pow2(width) {
        bits
    } else {
        bits - pow2(width)
    }
}

/// The number that bits are, read as numbers of a kind are.
pub open spec fn number(bits: int, kind: NumericKind) -> int {
    match kind {
        NumericKind::Signed(width) => signed(bits, width as nat),
        _ => bits,
    }
}

/// The quotient of two numbers, cut off towards zero.
pub open spec fn quotient(x: int, y: int) -> int {
    if x >= 0 && y > 0 {
        x / y
    } else if x >= 0 {
        -(x / -y)
    } else if y > 0 {
        -(-x / y)
    } else {
        -x / -y
    }
}

/// What is left of a number once the quotient has been taken out of it.
pub open spec fn remainder(x: int, y: int) -> int {
    x - y * quotient(x, y)
}

/// Whether one bit of a register is set.
pub open spec fn bit(bits: int, index: nat) -> bool {
    (bits / (pow2(index) as int)) % 2 == 1
}

/// A register whose bits are made of those of two others.
pub open spec fn bitwise(a: int, b: int, width: nat, f: spec_fn(bool, bool) -> bool) -> int
    decreases width,
{
    if width == 0 {
        0
    } else {
        2 * bitwise(a / 2, b / 2, (width - 1) as nat, f) + if f(a % 2 == 1, b % 2 == 1) {
            1int
        } else {
            0
        }
    }
}

/// What a machine does with floats, by their bits and their width.
pub struct Floats {
    pub plus: spec_fn(nat, int, int) -> int,
    pub minus: spec_fn(nat, int, int) -> int,
    pub times: spec_fn(nat, int, int) -> int,
    pub over: spec_fn(nat, int, int) -> int,
    pub less: spec_fn(nat, int, int) -> bool,
    pub equal: spec_fn(nat, int, int) -> bool,
    /// Whether one of two floats is no number.
    pub unordered: spec_fn(nat, int, int) -> bool,
    pub negated: spec_fn(nat, int) -> int,
    /// The float nearest to a number.
    pub nearest: spec_fn(nat, int) -> int,
    /// The number nearest to a float that has some bits.
    pub saturated: spec_fn(nat, int, NumericKind) -> int,
    /// A float in another width.
    pub resized: spec_fn(nat, int, nat) -> int,
}

/// One bit, as a number.
pub open spec fn truth(holds: bool) -> int {
    if holds {
        1
    } else {
        0
    }
}

/// The bits of what an operator gives on two numbers; nothing where the
/// language leaves it open: a division by zero, a quotient that does not fit,
/// and a shift by the width or more.
pub open spec fn meaning(
    m: Floats,
    op: BinaryOp,
    kind: NumericKind,
    left: int,
    right: int,
) -> Option<int> {
    let width = kind.width() as nat;
    let x = number(left, kind);
    let y = number(right, kind);
    match kind {
        NumericKind::Float(_) => match op {
            BinaryOp::Add => Some((m.plus)(width, left, right)),
            BinaryOp::Sub => Some((m.minus)(width, left, right)),
            BinaryOp::Mul => Some((m.times)(width, left, right)),
            BinaryOp::Div => Some((m.over)(width, left, right)),
            _ => if (m.unordered)(width, left, right) {
                None
            } else {
                match op {
                    BinaryOp::Eq => Some(truth((m.equal)(width, left, right))),
                    BinaryOp::Ne => Some(truth(!(m.equal)(width, left, right))),
                    BinaryOp::Lt => Some(truth((m.less)(width, left, right))),
                    BinaryOp::Le => Some(
                        truth((m.less)(width, left, right) || (m.equal)(width, left, right)),
                    ),
                    BinaryOp::Gt => Some(truth((m.less)(width, right, left))),
                    BinaryOp::Ge => Some(
                        truth((m.less)(width, right, left) || (m.equal)(width, left, right)),
                    ),
                    _ => None,
                }
            },
        },
        _ => match op {
            BinaryOp::Add => Some(wrap(x + y, width)),
            BinaryOp::Sub => Some(wrap(x - y, width)),
            BinaryOp::Mul => Some(wrap(x * y, width)),
            BinaryOp::Div => if y == 0 || !whole(quotient(x, y), kind) {
                None
            } else {
                Some(wrap(quotient(x, y), width))
            },
            BinaryOp::Rem => if y == 0 || !whole(quotient(x, y), kind) {
                None
            } else {
                Some(wrap(remainder(x, y), width))
            },
            BinaryOp::BitAnd => Some(bitwise(left, right, width, |a: bool, b: bool| a && b)),
            BinaryOp::BitOr => Some(bitwise(left, right, width, |a: bool, b: bool| a || b)),
            BinaryOp::BitXor => Some(bitwise(left, right, width, |a: bool, b: bool| a != b)),
            BinaryOp::Shl => if right >= width {
                None
            } else {
                Some(wrap(x * pow2(right as nat), width))
            },
            BinaryOp::Shr => if right >= width {
                None
            } else {
                Some(wrap(x / (pow2(right as nat) as int), width))
            },
            BinaryOp::Eq => Some(truth(x == y)),
            BinaryOp::Ne => Some(truth(x != y)),
            BinaryOp::Lt => Some(truth(x < y)),
            BinaryOp::Le => Some(truth(x <= y)),
            BinaryOp::Gt => Some(truth(x > y)),
            BinaryOp::Ge => Some(truth(x >= y)),
        },
    }
}

/// Whether a number is one of a kind.
pub open spec fn whole(x: int, kind: NumericKind) -> bool {
    let width = kind.width() as nat;
    match kind {
        NumericKind::Signed(_) => -pow2(width) <= 2 * x && 2 * x < pow2(width),
        _ => 0 <= x < pow2(width),
    }
}

/// What kind of number the bits of a type are; `pointer_bits` wide where the
/// type is as wide as a pointer.
pub open spec fn kind_of(ty: ResolvedType, pointer_bits: u32) -> Option<NumericKind> {
    match ty {
        ResolvedType::I8 => Some(NumericKind::Signed(8)),
        ResolvedType::I16 => Some(NumericKind::Signed(16)),
        ResolvedType::I32 => Some(NumericKind::Signed(32)),
        ResolvedType::I64 => Some(NumericKind::Signed(64)),
        ResolvedType::ISize => Some(NumericKind::Signed(pointer_bits)),
        ResolvedType::Bool | ResolvedType::U8 => Some(NumericKind::Unsigned(8)),
        ResolvedType::U16 => Some(NumericKind::Unsigned(16)),
        ResolvedType::Char | ResolvedType::U32 => Some(NumericKind::Unsigned(32)),
        ResolvedType::U64 => Some(NumericKind::Unsigned(64)),
        ResolvedType::USize => Some(NumericKind::Unsigned(pointer_bits)),
        ResolvedType::F32 => Some(NumericKind::Float(32)),
        ResolvedType::F64 => Some(NumericKind::Float(64)),
        _ => None,
    }
}

/// A function that is being run: what each instruction so far defined, and the
/// bytes in memory.
pub struct Machine {
    pub values: Seq<int>,
    pub memory: spec_fn(int) -> int,
}

/// What an instruction defined.
pub open spec fn value(m: Machine, index: usize) -> int {
    m.values[index as int]
}

/// The number in some bytes of memory, the lowest byte first.
pub open spec fn read(memory: spec_fn(int) -> int, at: int, count: nat) -> int
    decreases count,
{
    if count == 0 {
        0
    } else {
        memory(at) + 256 * read(memory, at + 1, (count - 1) as nat)
    }
}

/// One byte of a number.
pub open spec fn byte_of(bits: int, index: nat) -> int {
    (bits / (pow2(8 * index) as int)) % 256
}

/// Memory once a number has been written into some of its bytes.
pub open spec fn written_at(
    memory: spec_fn(int) -> int,
    at: int,
    count: nat,
    bits: int,
) -> spec_fn(int) -> int {
    |address: int|
        if at <= address < at + count {
            byte_of(bits, (address - at) as nat)
        } else {
            memory(address)
        }
}

impl Machine {
    /// The machine once the next instruction has defined something.
    pub open spec fn having(self, result: int) -> Machine {
        Machine { values: self.values.push(result), ..self }
    }

    /// The machine once the next instruction has stored something.
    pub open spec fn storing(self, at: int, count: nat, bits: int) -> Machine {
        Machine {
            values: self.values.push(0),
            memory: written_at(self.memory, at, count, bits),
        }
    }
}

/// Whether a machine has gone on from another: what was defined stays.
pub open spec fn continues(before: Machine, after: Machine) -> bool {
    begins_with(after.values, before.values)
}

/// Whether numbers start with others.
pub open spec fn begins_with(values: Seq<int>, start: Seq<int>) -> bool {
    start.len() <= values.len() && forall|i: int|
        0 <= i < start.len() ==> #[trigger] values[i] == start[i]
}

/// What is read depends on nothing but the bytes it is read from.
pub(crate) proof fn lemma_read_alike(
    a: spec_fn(int) -> int,
    b: spec_fn(int) -> int,
    at: int,
    count: nat,
)
    requires
        forall|address: int| at <= address < at + count ==> #[trigger] a(address) == b(address),
    ensures
        read(a, at, count) == read(b, at, count),
    decreases count,
{
    if count > 0 {
        assert(a(at) == b(at));
        lemma_read_alike(a, b, at + 1, (count - 1) as nat);
    }
}

proof fn lemma_read_rest(memory: spec_fn(int) -> int, at: int, count: nat, bits: int, k: nat)
    requires
        fits(bits, 8 * count),
        k <= count,
    ensures
        read(written_at(memory, at, count, bits), at + k, (count - k) as nat) == bits / (pow2(
            8 * k,
        ) as int),
    decreases count - k,
{
    lemma_pow2_pos(8 * k);
    if k == count {
        vstd::arithmetic::div_mod::lemma_basic_div(bits, pow2(8 * k) as int);
    } else {
        lemma_read_rest(memory, at, count, bits, k + 1);
        let p = pow2(8 * k) as int;
        vstd::arithmetic::power2::lemma2_to64();
        vstd::arithmetic::power2::lemma_pow2_adds(8 * k, 8);
        vstd::arithmetic::div_mod::lemma_div_denominator(bits, p, 256);
        lemma_fundamental_div_mod(bits / p, 256);
        assert(8 * (k + 1) == 8 * k + 8);
    }
}

/// What has been written is read back.
pub proof fn law_what_is_written_is_read(
    memory: spec_fn(int) -> int,
    at: int,
    count: nat,
    bits: int,
)
    requires
        fits(bits, 8 * count),
    ensures
        read(written_at(memory, at, count, bits), at, count) == bits,
{
    lemma_read_rest(memory, at, count, bits, 0);
    vstd::arithmetic::power2::lemma2_to64();
}

/// What lies elsewhere is not changed by what is written.
pub proof fn law_what_lies_elsewhere_stays(
    memory: spec_fn(int) -> int,
    at: int,
    count: nat,
    bits: int,
    other: int,
    bytes: nat,
)
    requires
        other + bytes <= at || at + count <= other,
    ensures
        read(written_at(memory, at, count, bits), other, bytes) == read(memory, other, bytes),
{
    lemma_read_alike(written_at(memory, at, count, bits), memory, other, bytes);
}

pub(crate) proof fn lemma_wrap_fits(x: int, width: nat)
    ensures
        fits(wrap(x, width), width),
{
    lemma_pow2_pos(width);
    lemma_mod_bound(x, pow2(width) as int);
}

pub(crate) proof fn lemma_wrap_small(x: int, width: nat)
    requires
        fits(x, width),
    ensures
        wrap(x, width) == x,
{
    lemma_small_mod(x as nat, pow2(width));
}

/// Numbers that differ by a multiple of the modulus have the same bits.
pub(crate) proof fn lemma_wrap_shift(x: int, k: int, width: nat)
    ensures
        wrap(x + k * pow2(width), width) == wrap(x, width),
{
    lemma_pow2_pos(width);
    vstd::arithmetic::div_mod::lemma_mod_multiples_vanish(k, x, pow2(width) as int);
    assert(x + k * pow2(width) == pow2(width) as int * k + x) by (nonlinear_arith);
}

/// The bits of a number of a kind, read as such, are the number.
pub proof fn law_numbers_read_back(x: int, kind: NumericKind)
    requires
        whole(x, kind),
        !(kind is Float),
    ensures
        number(wrap(x, kind.width() as nat), kind) == x,
{
    let width = kind.width() as nat;
    lemma_pow2_pos(width);
    if x >= 0 {
        lemma_wrap_small(x, width);
    } else {
        lemma_wrap_shift(x, 1, width);
        lemma_wrap_small(x + pow2(width), width);
    }
}

/// How far a reading is from the bits: a multiple of the modulus.
pub(crate) proof fn lemma_number_differs(bits: int, kind: NumericKind) -> (k: int)
    ensures
        number(bits, kind) == bits + k * pow2(kind.width() as nat),
        k == 0 || k == -1,
{
    match kind {
        NumericKind::Signed(width) => {
            if 2 * bits < pow2(width as nat) {
                0
            } else {
                assert(-1 * pow2(width as nat) == -pow2(width as nat)) by (nonlinear_arith);
                -1
            }
        },
        _ => 0,
    }
}

/// Sums, differences and products have the same bits however their operands
/// are read.
pub(crate) proof fn lemma_ring(left: int, right: int, kind: NumericKind)
    ensures
        ({
            let w = kind.width() as nat;
            let x = number(left, kind);
            let y = number(right, kind);
            &&& wrap(x + y, w) == wrap(left + right, w)
            &&& wrap(x - y, w) == wrap(left - right, w)
            &&& wrap(x * y, w) == wrap(left * right, w)
        }),
{
    let w = kind.width() as nat;
    let p = pow2(w) as int;
    let i = lemma_number_differs(left, kind);
    let j = lemma_number_differs(right, kind);
    let x = left + i * p;
    let y = right + j * p;
    assert(x + y == left + right + (i + j) * p) by (nonlinear_arith)
        requires
            x == left + i * p,
            y == right + j * p,
    ;
    assert(x - y == left - right + (i - j) * p) by (nonlinear_arith)
        requires
            x == left + i * p,
            y == right + j * p,
    ;
    lemma_wrap_shift(left + right, i + j, w);
    lemma_wrap_shift(left - right, i - j, w);
    lemma_wrap_shift(left, i, w);
    lemma_wrap_shift(right, j, w);
    lemma_pow2_pos(w);
    vstd::arithmetic::div_mod::lemma_mul_mod_noop(x, y, p);
    vstd::arithmetic::div_mod::lemma_mul_mod_noop(left, right, p);
}

/// A number times another has the same bits however it is read.
pub(crate) proof fn lemma_scaled(left: int, by: int, kind: NumericKind)
    ensures
        wrap(number(left, kind) * by, kind.width() as nat) == wrap(
            left * by,
            kind.width() as nat,
        ),
{
    let w = kind.width() as nat;
    let p = pow2(w) as int;
    let i = lemma_number_differs(left, kind);
    let x = number(left, kind);
    assert(x * by == left * by + (i * by) * p) by (nonlinear_arith)
        requires
            x == left + i * p,
    ;
    lemma_wrap_shift(left * by, i * by, w);
}

/// Bits that are read differently are different.
pub(crate) proof fn lemma_numbers_differ(left: int, right: int, kind: NumericKind)
    requires
        fits(left, kind.width() as nat),
        fits(right, kind.width() as nat),
    ensures
        (number(left, kind) == number(right, kind)) == (left == right),
{
}

/// Each bit of a register is made of the two at its place.
pub proof fn law_bitwise_works_on_each_bit(
    a: int,
    b: int,
    width: nat,
    f: spec_fn(bool, bool) -> bool,
    index: nat,
)
    requires
        index < width,
        a >= 0,
        b >= 0,
    ensures
        bit(bitwise(a, b, width, f), index) == f(bit(a, index), bit(b, index)),
        fits(bitwise(a, b, width, f), width),
    decreases width,
{
    lemma_bitwise_fits(a, b, width, f);
    let rest = bitwise(a / 2, b / 2, (width - 1) as nat, f);
    let low = if f(a % 2 == 1, b % 2 == 1) {
        1int
    } else {
        0
    };
    let whole = bitwise(a, b, width, f);
    lemma_bitwise_fits(a / 2, b / 2, (width - 1) as nat, f);
    vstd::arithmetic::power2::lemma2_to64();
    if index == 0 {
        assert(whole % 2 == low) by (nonlinear_arith)
            requires
                whole == 2 * rest + low,
                low == 0 || low == 1,
        ;
    } else {
        law_bitwise_works_on_each_bit(a / 2, b / 2, (width - 1) as nat, f, (index - 1) as nat);
        lemma_bit_of_half(a, index);
        lemma_bit_of_half(b, index);
        lemma_bit_of_half(whole, index);
        assert(whole / 2 == rest) by (nonlinear_arith)
            requires
                whole == 2 * rest + low,
                low == 0 || low == 1,
        ;
    }
}

proof fn lemma_bit_of_half(x: int, index: nat)
    requires
        index > 0,
        x >= 0,
    ensures
        bit(x, index) == bit(x / 2, (index - 1) as nat),
{
    let p = pow2((index - 1) as nat) as int;
    lemma_pow2_unfold(index);
    lemma_pow2_pos((index - 1) as nat);
    vstd::arithmetic::div_mod::lemma_div_denominator(x, 2, p);
}

pub(crate) proof fn lemma_bitwise_fits(a: int, b: int, width: nat, f: spec_fn(bool, bool) -> bool)
    ensures
        fits(bitwise(a, b, width, f), width),
    decreases width,
{
    vstd::arithmetic::power2::lemma2_to64();
    if width > 0 {
        lemma_bitwise_fits(a / 2, b / 2, (width - 1) as nat, f);
        lemma_pow2_unfold(width);
    }
}

/// A quotient and what is left make up the number again, and what is left is
/// nearer to zero than the divisor, on the side of the number.
pub proof fn law_quotient_and_remainder(x: int, y: int)
    requires
        y != 0,
    ensures
        y * quotient(x, y) + remainder(x, y) == x,
        x >= 0 ==> 0 <= remainder(x, y) && (if y > 0 {
            remainder(x, y) < y
        } else {
            remainder(x, y) < -y
        }),
        x < 0 ==> remainder(x, y) <= 0 && (if y > 0 {
            -remainder(x, y) < y
        } else {
            -remainder(x, y) < -y
        }),
{
    let a = if x >= 0 {
        x
    } else {
        -x
    };
    let b = if y > 0 {
        y
    } else {
        -y
    };
    lemma_fundamental_div_mod(a, b);
    lemma_mod_bound(a, b);
    let q = a / b;
    assert(y * quotient(x, y) == if x >= 0 {
        b * q
    } else {
        -(b * q)
    }) by (nonlinear_arith)
        requires
            quotient(x, y) == if (x >= 0) == (y > 0) {
                q
            } else {
                -q
            },
            b == if y > 0 {
                y
            } else {
                -y
            },
    ;
}

} // verus!
