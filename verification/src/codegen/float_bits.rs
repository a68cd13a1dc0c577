//! Floating-point constants as bits.
//!
//! A constant is carried as the bits of its 64-bit form. Where a 32-bit
//! constant is emitted, the nearest one is taken, ties going to the even one.

use vstd::prelude::*;

verus! {

/// Two to the power of `n`.
pub open spec fn two_to(n: nat) -> nat {
    vstd::arithmetic::power2::pow2(n)
}

/// `m` divided by two to the power of `shift`, rounded to the nearest integer;
/// a tie goes to the even one.
pub open spec fn nearest_even(m: nat, shift: nat) -> nat {
    let whole = m / two_to(shift);
    let rest = m % two_to(shift);
    if rest * 2 > two_to(shift) || (rest * 2 == two_to(shift) && whole % 2 == 1) {
        whole + 1
    } else {
        whole
    }
}

/// The exponent field of a 64-bit float.
pub open spec fn exponent64(bits: u64) -> nat {
    (bits as nat / 0x10_0000_0000_0000) % 0x800
}

/// The fraction field of a 64-bit float.
pub open spec fn fraction64(bits: u64) -> nat {
    bits as nat % 0x10_0000_0000_0000
}

/// Whether a 64-bit float is negative, as a bit at the place where a 32-bit
/// float has its sign.
pub open spec fn sign32(bits: u64) -> nat {
    if bits >= 0x8000_0000_0000_0000 {
        0x8000_0000
    } else {
        0
    }
}

/// The magnitude of the 32-bit float nearest to a 64-bit one, as bits. What is
/// too large becomes an infinity, what is too small zero, and what is no
/// number stays none, quiet, with the leading bits of its payload.
pub open spec fn magnitude32(bits: u64) -> nat {
    let exponent = exponent64(bits);
    let fraction = fraction64(bits);
    if exponent == 0x7ff {
        if fraction == 0 {
            0x7f80_0000
        } else {
            let payload = fraction / 0x2000_0000;
            0x7fc0_0000 + payload % 0x40_0000
        }
    } else if exponent == 0 {
        0
    } else {
        let significand = fraction + 0x10_0000_0000_0000;
        if exponent >= 897 {
            let rounded = (exponent - 897) * 0x80_0000 + nearest_even(significand, 29);
            if rounded >= 0x7f80_0000 {
                0x7f80_0000
            } else {
                rounded as nat
            }
        } else if exponent >= 871 {
            nearest_even(significand, (29 + 897 - exponent) as nat)
        } else {
            0
        }
    }
}

/// The bits of the 32-bit float nearest to the 64-bit one with these bits.
pub open spec fn narrowed(bits: u64) -> u32 {
    (sign32(bits) + magnitude32(bits)) as u32
}

fn power_of_two(n: u32) -> (p: u64)
    requires
        n < 64,
    ensures
        p == two_to(n as nat),
        p > 0,
{
    let mut p: u64 = 1;
    let mut i: u32 = 0;
    proof {
        vstd::arithmetic::power2::lemma2_to64();
    }
    while i < n
        invariant
            i <= n < 64,
            p == two_to(i as nat),
            p > 0,
        decreases n - i,
    {
        proof {
            vstd::arithmetic::power2::lemma_pow2_unfold((i + 1) as nat);
            vstd::arithmetic::power2::lemma2_to64();
            vstd::arithmetic::power2::lemma_pow2_strictly_increases((i + 1) as nat, 64);
        }
        p = p * 2;
        i = i + 1;
    }
    p
}

fn round_to_even(m: u64, shift: u32) -> (r: u64)
    requires
        shift < 63,
        m < 0x20_0000_0000_0000,
    ensures
        r == nearest_even(m as nat, shift as nat),
        r <= m / (two_to(shift as nat) as u64) + 1,
{
    let scale: u64 = power_of_two(shift);
    proof {
        vstd::arithmetic::power2::lemma2_to64();
        vstd::arithmetic::power2::lemma2_to64_rest();
        vstd::arithmetic::power2::lemma_pow2_strictly_increases(shift as nat, 63);
    }
    let whole: u64 = m / scale;
    let rest: u64 = m % scale;
    if rest * 2 > scale || (rest * 2 == scale && whole % 2 == 1) {
        whole + 1
    } else {
        whole
    }
}

proof fn lemma_rounded_small(m: nat, shift: nat)
    requires
        29 <= shift < 63,
        m < 0x20_0000_0000_0000,
    ensures
        nearest_even(m, shift) <= 0x100_0000,
{
    vstd::arithmetic::power2::lemma2_to64();
    vstd::arithmetic::power2::lemma2_to64_rest();
    if shift > 29 {
        vstd::arithmetic::power2::lemma_pow2_strictly_increases(29, shift);
    }
    let scale = two_to(shift);
    assert(two_to(29) == 0x2000_0000);
    assert(m / scale <= 0xff_ffff) by (nonlinear_arith)
        requires
            m < 0x20_0000_0000_0000,
            scale >= 0x2000_0000,
    ;
}

/// The bits of the 32-bit float nearest to the 64-bit one with these bits.
pub fn narrow(bits: u64) -> (narrow: u32)
    ensures
        narrow == narrowed(bits),
{
    let exponent: u64 = (bits / 0x10_0000_0000_0000) % 0x800;
    let fraction: u64 = bits % 0x10_0000_0000_0000;
    let sign: u32 = if bits >= 0x8000_0000_0000_0000 {
        0x8000_0000
    } else {
        0
    };
    if exponent == 0x7ff {
        if fraction == 0 {
            return sign + 0x7f80_0000;
        }
        let payload: u64 = fraction / 0x2000_0000;
        return sign + 0x7fc0_0000 + (payload % 0x40_0000) as u32;
    }
    if exponent == 0 || exponent < 871 {
        return sign;
    }
    let significand: u64 = fraction + 0x10_0000_0000_0000;
    if exponent >= 897 {
        let rounded: u64 = round_to_even(significand, 29);
        proof {
            lemma_rounded_small(significand as nat, 29);
        }
        let magnitude: u64 = (exponent - 897) * 0x80_0000 + rounded;
        if magnitude >= 0x7f80_0000 {
            sign + 0x7f80_0000
        } else {
            sign + magnitude as u32
        }
    } else {
        let shift: u32 = (29 + 897 - exponent) as u32;
        let rounded: u64 = round_to_even(significand, shift);
        proof {
            lemma_rounded_small(significand as nat, shift as nat);
        }
        sign + rounded as u32
    }
}

} // verus!
