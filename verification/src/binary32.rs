//! IEEE 754 binary32 values, handled through their bit patterns.
//!
//! The rig reports its steering angle as a binary32 number and the rotary
//! thresholds are configured as such numbers. This module never computes with
//! them; it only orders and compares them, which integer arithmetic on the
//! 32-bit pattern can do exactly.

use vstd::prelude::*;
use vstd::arithmetic::power2::{pow2, lemma_pow2_pos, lemma_pow2_unfold};

verus! {

/// Bit pattern of the number zero.
pub const ZERO: u32 = 0;

/// Bit pattern of the number one.
pub const ONE: u32 = 0x3F80_0000;

/// Whether the sign bit of the pattern is set.
pub open spec fn sign_negative(bits: u32) -> bool {
    bits >= 0x8000_0000
}

/// The pattern without its sign bit: exponent field times 2^23 plus the fraction field.
pub open spec fn magnitude(bits: u32) -> int {
    bits as int % 0x8000_0000
}

/// Whether the pattern is a NaN: exponent field all ones, fraction not zero.
pub open spec fn is_nan(bits: u32) -> bool {
    magnitude(bits) > 0x7F80_0000
}

/// The absolute value that a magnitude `x` denotes, multiplied by 2^149.
///
/// With exponent field `e` and fraction field `f`, a subnormal (`e == 0`)
/// denotes `f * 2^-149` and a normal number `(2^23 + f) * 2^(e - 150)`.
/// The infinities (`e == 255`, `f == 0`) get the next power of two above every
/// finite value, which places them correctly in the order.
pub open spec fn scaled_magnitude(x: int) -> int {
    let e = x / 0x80_0000;
    let f = x % 0x80_0000;
    if e <= 0 {
        f
    } else {
        (0x80_0000 + f) * pow2((e - 1) as nat)
    }
}

/// The number that a pattern denotes, multiplied by 2^149. Meaningful for
/// every pattern that is not a NaN; both zeros give 0.
pub open spec fn scaled(bits: u32) -> int {
    if sign_negative(bits) {
        -scaled_magnitude(magnitude(bits))
    } else {
        scaled_magnitude(magnitude(bits))
    }
}

/// `a > b` as IEEE 754 defines it: false when either side is a NaN.
pub open spec fn greater_than(a: u32, b: u32) -> bool {
    !is_nan(a) && !is_nan(b) && scaled(a) > scaled(b)
}

/// `a != b` as IEEE 754 defines it: true when either side is a NaN, and the
/// two zeros are equal.
pub open spec fn not_equal(a: u32, b: u32) -> bool {
    is_nan(a) || is_nan(b) || scaled(a) != scaled(b)
}

/// The pattern read as a sign-and-magnitude integer.
pub open spec fn signed_magnitude(bits: u32) -> int {
    if sign_negative(bits) {
        -magnitude(bits)
    } else {
        magnitude(bits)
    }
}

/// `scaled_magnitude` extended to negative arguments by symmetry.
pub open spec fn scaled_signed(k: int) -> int {
    if k < 0 {
        -scaled_magnitude(-k)
    } else {
        scaled_magnitude(k)
    }
}

proof fn lemma_scaled_magnitude_step(x: int)
    requires
        0 <= x,
    ensures
        0 <= scaled_magnitude(x) < scaled_magnitude(x + 1),
{
    let e = x / 0x80_0000;
    let f = x % 0x80_0000;
    if e > 0 {
        let p = pow2((e - 1) as nat) as int;
        lemma_pow2_pos((e - 1) as nat);
        assert(0 <= (0x80_0000 + f) * p) by (nonlinear_arith)
            requires
                0 <= f,
                0 < p,
        ;
        if f + 1 < 0x80_0000 {
            assert((0x80_0000 + f) * p < (0x80_0000 + f + 1) * p) by (nonlinear_arith)
                requires
                    0 < p,
            ;
        } else {
            lemma_pow2_unfold(e as nat);
            assert((0x80_0000 + f) * p < 0x80_0000 * (2 * p)) by (nonlinear_arith)
                requires
                    0 < p,
                    f < 0x80_0000,
            ;
        }
    } else {
        if f + 1 == 0x80_0000 {
            assert(pow2(0) == 1) by {
                reveal_with_fuel(pow2, 1);
                vstd::arithmetic::power2::lemma_pow2(0);
                vstd::arithmetic::power::lemma_pow0(2);
            }
        }
    }
}

proof fn lemma_scaled_magnitude_increases(x: int, y: int)
    requires
        0 <= x < y,
    ensures
        0 <= scaled_magnitude(x) < scaled_magnitude(y),
    decreases y - x,
{
    lemma_scaled_magnitude_step(x);
    if x + 1 < y {
        lemma_scaled_magnitude_increases(x + 1, y);
    }
}

/// The scaled value grows strictly with the sign-and-magnitude reading.
pub proof fn lemma_scaled_signed_increases(j: int, k: int)
    requires
        j < k,
    ensures
        scaled_signed(j) < scaled_signed(k),
{
    assert(scaled_magnitude(0) == 0);
    if j >= 0 {
        lemma_scaled_magnitude_increases(j, k);
    } else if k < 0 {
        lemma_scaled_magnitude_increases(-k, -j);
    } else {
        lemma_scaled_magnitude_increases(0, -j);
        if k > 0 {
            lemma_scaled_magnitude_increases(0, k);
        }
    }
}

/// Two patterns are ordered by value exactly as their sign-and-magnitude
/// readings are ordered.
pub proof fn lemma_order_by_signed_magnitude(a: u32, b: u32)
    ensures
        scaled(a) == scaled_signed(signed_magnitude(a)),
        scaled(a) > scaled(b) <==> signed_magnitude(a) > signed_magnitude(b),
        scaled(a) == scaled(b) <==> signed_magnitude(a) == signed_magnitude(b),
{
    assert(scaled_magnitude(0) == 0);
    assert(scaled(a) == scaled_signed(signed_magnitude(a)));
    assert(scaled(b) == scaled_signed(signed_magnitude(b)));
    let j = signed_magnitude(a);
    let k = signed_magnitude(b);
    if j < k {
        lemma_scaled_signed_increases(j, k);
    } else if k < j {
        lemma_scaled_signed_increases(k, j);
    }
}

/// The number one is 2^149 on the scaled axis, and zero is 0.
pub proof fn lemma_zero_and_one()
    ensures
        !is_nan(ZERO),
        !is_nan(ONE),
        scaled(ZERO) == 0,
        scaled(ONE) == pow2(149),
        scaled(ONE) > 0,
{
    lemma_pow2_pos(126);
    vstd::arithmetic::power2::lemma_pow2_adds(23, 126);
    vstd::arithmetic::power2::lemma2_to64();
    assert(ONE as int / 0x80_0000 == 127);
    assert(ONE as int % 0x80_0000 == 0);
    assert(0x80_0000 == pow2(23));
}

/// Whether `bits` is a NaN.
pub fn nan(bits: u32) -> (r: bool)
    ensures
        r == is_nan(bits),
{
    bits % 0x8000_0000 > 0x7F80_0000
}

/// The sign-and-magnitude reading of `bits`.
fn order_key(bits: u32) -> (key: i64)
    ensures
        key == signed_magnitude(bits),
{
    let m: u32 = bits % 0x8000_0000;
    if bits >= 0x8000_0000 {
        -(m as i64)
    } else {
        m as i64
    }
}

/// `a > b` on the numbers that the two patterns denote.
pub fn gt(a: u32, b: u32) -> (r: bool)
    ensures
        r == greater_than(a, b),
{
    proof {
        lemma_order_by_signed_magnitude(a, b);
    }
    !nan(a) && !nan(b) && order_key(a) > order_key(b)
}

/// `a != b` on the numbers that the two patterns denote.
pub fn ne(a: u32, b: u32) -> (r: bool)
    ensures
        r == not_equal(a, b),
{
    proof {
        lemma_order_by_signed_magnitude(a, b);
    }
    nan(a) || nan(b) || order_key(a) != order_key(b)
}

} // verus!
