//! Floating-point numbers as bit patterns: the order, the special values and the exact
//! conversions that need no rounding. A single-precision number is held as a `u32`, a
//! double-precision one as a `u64`, both in the IEEE 754 interchange layout.

use vstd::arithmetic::power2::*;
use vstd::prelude::*;

verus! {

/// `0.0`.
pub const F32_ZERO: u32 = 0;

/// `1.0`.
pub const F32_ONE: u32 = 0x3F80_0000;

/// `0.5`.
pub const F32_HALF: u32 = 0x3F00_0000;

/// `255.0`.
pub const F32_255: u32 = 0x437F_0000;

/// The magnitude bits of a single.
pub open spec fn f32_magnitude(bits: u32) -> int {
    bits as int % 0x8000_0000
}

/// Whether the sign bit of a single is set.
pub open spec fn f32_negative(bits: u32) -> bool {
    bits >= 0x8000_0000
}

/// Whether a single is not a number.
pub open spec fn f32_nan(bits: u32) -> bool {
    f32_magnitude(bits) > 0x7F80_0000
}

/// Where a single that is a number stands in the order of numbers: equal places are equal
/// numbers, and both zeros stand at 0.
pub open spec fn f32_place(bits: u32) -> int {
    if f32_negative(bits) {
        -f32_magnitude(bits)
    } else {
        f32_magnitude(bits)
    }
}

/// Where a single stands in the total order, which also places the two zeros and every NaN.
pub open spec fn f32_total_place(bits: u32) -> int {
    if f32_negative(bits) {
        -f32_magnitude(bits) - 1
    } else {
        f32_magnitude(bits)
    }
}

/// `a <= b`, which no NaN satisfies.
pub open spec fn f32_at_most(a: u32, b: u32) -> bool {
    !f32_nan(a) && !f32_nan(b) && f32_place(a) <= f32_place(b)
}

/// Whether a single equals zero, of either sign.
pub fn f32_is_zero(bits: u32) -> (r: bool)
    ensures
        r == (f32_magnitude(bits) == 0),
{
    bits % 0x8000_0000 == 0
}

/// The place of a single in the order of numbers.
fn f32_place_of(bits: u32) -> (r: i64)
    ensures
        r == f32_place(bits),
{
    let m: i64 = (bits % 0x8000_0000) as i64;
    if bits >= 0x8000_0000 {
        -m
    } else {
        m
    }
}

/// Compares two singles: `a <= b`.
pub fn f32_le(a: u32, b: u32) -> (r: bool)
    ensures
        r == f32_at_most(a, b),
{
    a % 0x8000_0000 <= 0x7F80_0000 && b % 0x8000_0000 <= 0x7F80_0000 && f32_place_of(a)
        <= f32_place_of(b)
}

/// Whether `a` is greater than `b`.
pub open spec fn f32_exceeds(a: u32, b: u32) -> bool {
    !f32_nan(a) && !f32_nan(b) && f32_place(a) > f32_place(b)
}

/// Whether `a` is greater than `b`.
pub fn f32_above(a: u32, b: u32) -> (r: bool)
    ensures
        r == f32_exceeds(a, b),
{
    a % 0x8000_0000 <= 0x7F80_0000 && b % 0x8000_0000 <= 0x7F80_0000 && f32_place_of(a)
        > f32_place_of(b)
}

/// A single held to the range from 0 to 1; what is no number stays as it is.
pub open spec fn clamped_unit(bits: u32) -> u32 {
    if f32_nan(bits) {
        bits
    } else if f32_place(bits) < 0 {
        F32_ZERO
    } else if f32_place(bits) > f32_place(F32_ONE) {
        F32_ONE
    } else {
        bits
    }
}

/// Holds a single to the range from 0 to 1.
pub fn clamp_unit(bits: u32) -> (r: u32)
    ensures
        r == clamped_unit(bits),
{
    if bits % 0x8000_0000 > 0x7F80_0000 {
        return bits;
    }
    let place: i64 = f32_place_of(bits);
    if place < 0 {
        F32_ZERO
    } else if place > f32_place_of(F32_ONE) {
        F32_ONE
    } else {
        bits
    }
}

/// The place of a single in the total order.
pub fn f32_total_place_of(bits: u32) -> (r: i64)
    ensures
        r == f32_total_place(bits),
{
    let m: i64 = (bits % 0x8000_0000) as i64;
    if bits >= 0x8000_0000 {
        -m - 1
    } else {
        m
    }
}

/// A double is not a number.
pub open spec fn f64_nan(bits: u64) -> bool {
    bits as int % 0x8000_0000_0000_0000 > 0x7FF0_0000_0000_0000
}

/// Where a double that is a number stands in the order of numbers.
pub open spec fn f64_place(bits: u64) -> int {
    if bits >= 0x8000_0000_0000_0000 {
        -(bits as int % 0x8000_0000_0000_0000)
    } else {
        bits as int
    }
}

/// The place of a double in the order of numbers.
pub fn f64_place_of(bits: u64) -> (r: i64)
    ensures
        r == f64_place(bits),
{
    let m: i64 = (bits % 0x8000_0000_0000_0000) as i64;
    if bits >= 0x8000_0000_0000_0000 {
        -m
    } else {
        m
    }
}

/// Whether a double is not a number.
pub fn f64_is_nan(bits: u64) -> (r: bool)
    ensures
        r == f64_nan(bits),
{
    bits % 0x8000_0000_0000_0000 > 0x7FF0_0000_0000_0000
}

/// `0.5`, `1.5`, `2.5` and `3.5` as places of doubles.
pub open spec fn halfway(k: int) -> int {
    if k == 0 {
        0x3FE0_0000_0000_0000
    } else if k == 1 {
        0x3FF8_0000_0000_0000
    } else if k == 2 {
        0x4004_0000_0000_0000
    } else {
        0x400C_0000_0000_0000
    }
}

/// The whole number a double rounds to, halves away from zero, where that is 0, 1, 2 or 3; a NaN
/// counts as 0.
pub open spec fn rounded_to_small(bits: u64) -> Option<i64> {
    let p = f64_place(bits);
    if f64_nan(bits) {
        Some(0i64)
    } else if p <= -halfway(0) || p >= halfway(3) {
        None
    } else if p < halfway(0) {
        Some(0i64)
    } else if p < halfway(1) {
        Some(1i64)
    } else if p < halfway(2) {
        Some(2i64)
    } else {
        Some(3i64)
    }
}

/// Rounds a double to 0, 1, 2 or 3; `None` for every other whole number.
pub fn round_to_small(bits: u64) -> (r: Option<i64>)
    ensures
        r == rounded_to_small(bits),
{
    if f64_is_nan(bits) {
        return Some(0);
    }
    let p: i64 = f64_place_of(bits);
    if p <= -0x3FE0_0000_0000_0000 || p >= 0x400C_0000_0000_0000 {
        None
    } else if p < 0x3FE0_0000_0000_0000 {
        Some(0)
    } else if p < 0x3FF8_0000_0000_0000 {
        Some(1)
    } else if p < 0x4004_0000_0000_0000 {
        Some(2)
    } else {
        Some(3)
    }
}

/// The whole part of the magnitude of a finite double: `fraction * 2^exponent`, rounded down.
pub open spec fn f64_whole_magnitude(bits: u64) -> int {
    let exponent = bits as int % 0x8000_0000_0000_0000 / 0x10_0000_0000_0000;
    let fraction = bits as int % 0x10_0000_0000_0000;
    if exponent < 1023 {
        0
    } else if exponent <= 1075 {
        (0x10_0000_0000_0000 + fraction) / (pow2((1075 - exponent) as nat) as int)
    } else {
        (0x10_0000_0000_0000 + fraction) * (pow2((exponent - 1075) as nat) as int)
    }
}

/// A double cut down to a whole number: towards zero, held to the range of `i64`, and 0 for a NaN.
pub open spec fn f64_truncated(bits: u64) -> int {
    let negative = bits >= 0x8000_0000_0000_0000;
    let exponent = bits as int % 0x8000_0000_0000_0000 / 0x10_0000_0000_0000;
    if f64_nan(bits) {
        0
    } else if exponent >= 1086 {
        if negative {
            i64::MIN as int
        } else {
            i64::MAX as int
        }
    } else if negative {
        -f64_whole_magnitude(bits)
    } else {
        f64_whole_magnitude(bits)
    }
}

/// `2^n`.
fn power_of_two(n: u64) -> (r: u64)
    requires
        n < 64,
    ensures
        r == pow2(n as nat),
{
    let mut r: u64 = 1;
    let mut i: u64 = 0;
    proof {
        lemma2_to64();
    }
    while i < n
        invariant
            i <= n < 64,
            r == pow2(i as nat),
        decreases n - i,
    {
        proof {
            lemma_pow2_adds(i as nat, 1);
            lemma2_to64();
            assert(pow2(1) == 2);
            lemma_pow2_strictly_increases(i as nat, 63);
            lemma2_to64_rest();
            assert(pow2(63) == 0x8000_0000_0000_0000);
        }
        r = r * 2;
        i += 1;
    }
    r
}

/// Cuts a double down to a whole number.
pub fn f64_to_i64(bits: u64) -> (r: i64)
    ensures
        r == f64_truncated(bits),
{
    if f64_is_nan(bits) {
        return 0;
    }
    let negative: bool = bits >= 0x8000_0000_0000_0000;
    let exponent: u64 = bits % 0x8000_0000_0000_0000 / 0x10_0000_0000_0000;
    let fraction: u64 = bits % 0x10_0000_0000_0000;
    if exponent >= 1086 {
        return if negative {
            i64::MIN
        } else {
            i64::MAX
        };
    }
    if exponent < 1023 {
        return 0;
    }
    let significand: u64 = 0x10_0000_0000_0000 + fraction;
    let magnitude: u64;
    if exponent <= 1075 {
        let p: u64 = power_of_two(1075 - exponent);
        proof {
            lemma_pow2_pos((1075 - exponent) as nat);
            assert(significand as int / (p as int) <= significand) by (nonlinear_arith)
                requires
                    p >= 1,
                    significand >= 0,
            ;
        }
        magnitude = significand / p;
    } else {
        let p: u64 = power_of_two(exponent - 1075);
        proof {
            lemma2_to64();
            assert(exponent - 1075 <= 10);
            if exponent - 1075 < 10 {
                lemma_pow2_strictly_increases(
                    (exponent - 1075) as nat,
                    10,
                );
            }
            assert(p <= 1024);
            assert(significand * p < 0x8000_0000_0000_0000) by (nonlinear_arith)
                requires
                    significand < 0x20_0000_0000_0000,
                    p <= 1024,
            ;
        }
        magnitude = significand * p;
    }
    assert(magnitude == f64_whole_magnitude(bits));
    if negative {
        -(magnitude as i64)
    } else {
        magnitude as i64
    }
}

/// The magnitude of a finite half-precision number, in units of `2^-24`.
pub open spec fn half_units(bits: u16) -> int {
    let exponent = bits as int / 1024 % 32;
    let fraction = bits as int % 1024;
    if exponent == 0 {
        fraction
    } else {
        (1024 + fraction) * (pow2((exponent - 1) as nat) as int)
    }
}

/// The magnitude of a finite single, in units of `2^-149`.
pub open spec fn f32_units(bits: u32) -> int {
    let exponent = bits as int / 0x80_0000 % 256;
    let fraction = bits as int % 0x80_0000;
    if exponent == 0 {
        fraction
    } else {
        (0x80_0000 + fraction) * (pow2((exponent - 1) as nat) as int)
    }
}

/// `r` is the single with the value of the half-precision number `bits`. Infinities keep their
/// sign, and every NaN becomes the quiet NaN of the same sign.
pub open spec fn widens(bits: u16, r: u32) -> bool {
    let exponent = bits as int / 1024 % 32;
    let fraction = bits as int % 1024;
    &&& f32_negative(r) == (bits >= 0x8000)
    &&& if exponent < 31 {
        r as int / 0x80_0000 % 256 < 255 && f32_units(r) == half_units(bits) * pow2(125)
    } else if fraction == 0 {
        f32_magnitude(r) == 0x7F80_0000
    } else {
        f32_magnitude(r) == 0x7FC0_0000
    }
}

/// Widens a half-precision number to a single, exactly.
pub fn half_to_f32(bits: u16) -> (r: u32)
    ensures
        widens(bits, r),
{
    let sign: u32 = (bits / 0x8000) as u32 * 0x8000_0000;
    let exponent: u32 = (bits / 1024 % 32) as u32;
    let fraction: u32 = (bits % 1024) as u32;
    if exponent == 31 {
        return if fraction == 0 {
            sign + 0x7F80_0000
        } else {
            sign + 0x7FC0_0000
        };
    }
    if exponent != 0 {
        let magnitude: u32 = (exponent + 112) * 0x80_0000 + fraction * 8192;
        proof {
            lemma_widen_normal(exponent as int, fraction as int);
            let r = (sign + magnitude) as u32;
            assert(r as int / 0x80_0000 % 256 == exponent + 112);
            assert(r as int % 0x80_0000 == fraction * 8192);
        }
        return sign + magnitude;
    }
    if fraction == 0 {
        assert(half_units(bits) * pow2(125) == 0) by (nonlinear_arith)
            requires
                half_units(bits) == 0,
        ;
        return sign;
    }
    let mut top: u32 = 0;
    let mut step: u32 = 1;
    proof {
        lemma2_to64();
    }
    while fraction >= step * 2
        invariant
            0 < fraction < 1024,
            step <= fraction,
            top <= 9,
            step == pow2(top as nat),
            step <= 512,
        decreases 1024 - step,
    {
        proof {
            lemma_pow2_adds(top as nat, 1);
            lemma2_to64();
            if top == 9 {
                assert(step == 512);
            }
        }
        step = step * 2;
        top += 1;
    }
    proof {
        lemma2_to64();
        lemma_pow2_adds(top as nat, (23 - top) as nat);
        lemma_pow2_pos((23 - top) as nat);
    }
    let shift: u32 = power_of_two((23 - top) as u64) as u32;
    assert((fraction - step) * shift < 0x80_0000 && (fraction - step) * shift >= 0) by (
    nonlinear_arith)
        requires
            step <= fraction < step * 2,
            step * shift == 0x80_0000,
            shift > 0,
    ;
    let magnitude: u32 = (top + 103) * 0x80_0000 + (fraction - step) * shift;
    proof {
        let r = (sign + magnitude) as u32;
        assert(r as int / 0x80_0000 % 256 == top + 103);
        assert(r as int % 0x80_0000 == (fraction - step) * shift);
        lemma_widen_subnormal(top as int, fraction as int, step as int, shift as int);
    }
    sign + magnitude
}

proof fn lemma_widen_normal(exponent: int, fraction: int)
    requires
        1 <= exponent < 31,
        0 <= fraction < 1024,
    ensures
        (0x80_0000 + fraction * 8192) * (pow2((exponent + 111) as nat) as int) == (1024 + fraction)
            * (pow2((exponent - 1) as nat) as int) * pow2(125),
{
    lemma_pow2_adds((exponent - 1) as nat, 112);
    lemma_pow2_adds(13, 112);
    lemma2_to64();
    let p = pow2((exponent - 1) as nat) as int;
    let q = pow2(112) as int;
    assert(pow2(13) == 8192);
    assert((0x80_0000 + fraction * 8192) * (p * q) == (1024 + fraction) * p * (8192 * q)) by (
    nonlinear_arith);
}

proof fn lemma_widen_subnormal(top: int, fraction: int, step: int, shift: int)
    requires
        0 <= top <= 9,
        step == pow2(top as nat),
        shift == pow2((23 - top) as nat),
    ensures
        (0x80_0000 + (fraction - step) * shift) * (pow2((top + 102) as nat) as int) == fraction
            * pow2(125),
{
    lemma_pow2_adds(top as nat, (23 - top) as nat);
    lemma_pow2_adds((23 - top) as nat, (top + 102) as nat);
    lemma2_to64();
    let q = pow2((top + 102) as nat) as int;
    assert(step * shift == 0x80_0000);
    assert((step * shift + (fraction - step) * shift) * q == fraction * (shift * q)) by (
    nonlinear_arith);
}

} // verus!
