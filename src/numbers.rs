//! Number values, held as the bit pattern of an IEEE-754 binary64 value.

use vstd::arithmetic::div_mod::lemma_basic_div;
use vstd::arithmetic::power2::{lemma2_to64, lemma2_to64_rest, lemma_pow2_pos, lemma_pow2_strictly_increases, pow2};
use vstd::bits::{
    lemma_u64_low_bits_mask_is_mod, lemma_u64_pow2_no_overflow, lemma_u64_shl_is_mul,
    lemma_u64_shr_is_div, low_bits_mask,
};
use vstd::prelude::*;

verus! {

/// The largest integer `n` such that `n` and `n + 1` are both exactly
/// representable as a Number (2^53 - 1).
pub const MAX_SAFE_INTEGER: u64 = 9_007_199_254_740_991;

/// The bit of the sign.
pub const SIGN_MASK: u64 = 0x8000_0000_0000_0000;

/// The bits of the biased exponent.
pub const EXPONENT_MASK: u64 = 0x7ff0_0000_0000_0000;

/// The bits of the fraction.
pub const FRACTION_MASK: u64 = 0x000f_ffff_ffff_ffff;

/// The bit pattern of the quiet NaN that operations produce.
pub const NAN_BITS: u64 = 0x7ff8_0000_0000_0000;

/// The bit pattern of +Infinity.
pub const POSITIVE_INFINITY_BITS: u64 = 0x7ff0_0000_0000_0000;

/// The bit pattern of -Infinity.
pub const NEGATIVE_INFINITY_BITS: u64 = 0xfff0_0000_0000_0000;

/// The bit pattern of 1.
pub const ONE_BITS: u64 = 0x3ff0_0000_0000_0000;

/// A Number value: an IEEE-754 binary64 value, held as its bit pattern.
#[derive(Clone, Copy, Debug)]
pub struct Number {
    /// The bit pattern.
    pub bits: u64,
}

impl Number {
    /// The Number with the given bit pattern.
    pub fn from_bits(bits: u64) -> (r: Number)
        ensures
            r.bits == bits,
    {
        Number { bits }
    }

    /// The bit pattern.
    pub fn to_bits(self) -> (r: u64)
        ensures
            r == self.bits,
    {
        self.bits
    }
}

/// The value is a NaN: all exponent bits set, and a fraction that is not zero.
pub open spec fn nan_bits(b: u64) -> bool {
    b & EXPONENT_MASK == EXPONENT_MASK && b & FRACTION_MASK != 0
}

/// The value is +0 or -0: every bit but the sign is clear.
pub open spec fn zero_bits(b: u64) -> bool {
    b & !SIGN_MASK == 0
}

/// The sign bit is set.
pub open spec fn negative_bits(b: u64) -> bool {
    b & SIGN_MASK != 0
}

/// The biased exponent, from 0 to 2047.
pub open spec fn biased_exponent(b: u64) -> int {
    ((b & EXPONENT_MASK) >> 52u64) as int
}

/// The significand as an integer: the fraction, with the implicit leading
/// bit of a normal number.
pub open spec fn significand(b: u64) -> int {
    if biased_exponent(b) == 0 {
        (b & FRACTION_MASK) as int
    } else {
        (b & FRACTION_MASK) + pow2(52)
    }
}

/// The integer part of the magnitude of a finite number, that is the largest
/// integer that is not above its absolute value. A finite normal number is
/// `significand * 2^(exponent - 1075)`; subnormal numbers are below one.
pub open spec fn magnitude_floor(b: u64) -> int {
    let e = biased_exponent(b);
    if e == 0 {
        0
    } else if e >= 1075 {
        significand(b) * pow2((e - 1075) as nat)
    } else {
        significand(b) / pow2((1075 - e) as nat) as int
    }
}

/// A finite number truncated toward zero, as a mathematical integer.
pub open spec fn truncated(b: u64) -> int {
    if negative_bits(b) {
        -magnitude_floor(b)
    } else {
        magnitude_floor(b)
    }
}

/// Not a NaN and not an infinity.
pub open spec fn finite_bits(b: u64) -> bool {
    b & EXPONENT_MASK != EXPONENT_MASK
}

/// The two zeros are +0 and -0.
proof fn lemma_zero_bits(b: u64)
    ensures
        zero_bits(b) == (b == 0 || b == SIGN_MASK),
{
    assert((b & !0x8000_0000_0000_0000u64 == 0) == (b == 0 || b == 0x8000_0000_0000_0000u64))
        by (bit_vector);
}

/// A zero truncates to zero.
pub proof fn lemma_zero_truncates(b: u64)
    requires
        zero_bits(b),
    ensures
        biased_exponent(b) == 0,
        truncated(b) == 0,
        finite_bits(b),
        b == 0 || b == SIGN_MASK,
{
    lemma_zero_bits(b);
    assert(b & !0x8000_0000_0000_0000u64 == 0 ==> (b & 0x7ff0_0000_0000_0000u64) >> 52u64 == 0)
        by (bit_vector);
    assert(b & !0x8000_0000_0000_0000u64 == 0 ==> b & 0x7ff0_0000_0000_0000u64
        != 0x7ff0_0000_0000_0000u64) by (bit_vector);
}

/// A finite number with no fraction below its binary point.
pub open spec fn integral_bits(b: u64) -> bool {
    finite_bits(b) && (zero_bits(b) || (biased_exponent(b) >= 1023 && (biased_exponent(b)
        >= 1075 || (b & FRACTION_MASK) as int % pow2((1075 - biased_exponent(b)) as nat) as int
        == 0)))
}

/// Is the number a NaN?
pub fn is_nan(value: Number) -> (r: bool)
    ensures
        r == nan_bits(value.bits),
{
    value.bits & EXPONENT_MASK == EXPONENT_MASK && value.bits & FRACTION_MASK != 0
}

/// Is the number +Infinity or -Infinity?
pub fn is_inf(value: Number) -> (r: bool)
    ensures
        r == (value.bits == POSITIVE_INFINITY_BITS || value.bits == NEGATIVE_INFINITY_BITS),
{
    value.bits == POSITIVE_INFINITY_BITS || value.bits == NEGATIVE_INFINITY_BITS
}

/// Is the number +Infinity?
pub fn is_pos_inf(value: Number) -> (r: bool)
    ensures
        r == (value.bits == POSITIVE_INFINITY_BITS),
{
    value.bits == POSITIVE_INFINITY_BITS
}

/// Is the number -Infinity?
pub fn is_neg_inf(value: Number) -> (r: bool)
    ensures
        r == (value.bits == NEGATIVE_INFINITY_BITS),
{
    value.bits == NEGATIVE_INFINITY_BITS
}

/// Is the number +0 or -0?
pub fn is_zero(value: Number) -> (r: bool)
    ensures
        r == zero_bits(value.bits),
{
    value.bits & !SIGN_MASK == 0
}

/// Is the number -0?
pub fn is_neg_zero(value: Number) -> (r: bool)
    ensures
        r == (value.bits == SIGN_MASK),
{
    value.bits == SIGN_MASK
}

/// Is the number +0?
pub fn is_pos_zero(value: Number) -> (r: bool)
    ensures
        r == (value.bits == 0),
{
    value.bits == 0
}

/// IEEE-754 equality: a NaN equals nothing, and +0 equals -0.
pub open spec fn number_equal_spec(x: u64, y: u64) -> bool {
    !nan_bits(x) && !nan_bits(y) && (x == y || (zero_bits(x) && zero_bits(y)))
}

/// SameValue on numbers: NaN equals NaN, and +0 differs from -0.
pub open spec fn number_same_value_spec(x: u64, y: u64) -> bool {
    (nan_bits(x) && nan_bits(y)) || x == y
}

/// SameValueZero on numbers: NaN equals NaN, and +0 equals -0.
pub open spec fn number_same_value_zero_spec(x: u64, y: u64) -> bool {
    (nan_bits(x) && nan_bits(y)) || (zero_bits(x) && zero_bits(y)) || x == y
}

/// Number::equal: the comparison of `===` on two numbers.
pub fn e262_equal(x: Number, y: Number) -> (r: bool)
    ensures
        r == number_equal_spec(x.bits, y.bits),
{
    if is_nan(x) || is_nan(y) {
        false
    } else if is_zero(x) && is_zero(y) {
        true
    } else {
        x.bits == y.bits
    }
}

/// Number::sameValue.
pub fn e262_same_value(x: Number, y: Number) -> (r: bool)
    ensures
        r == number_same_value_spec(x.bits, y.bits),
{
    if is_nan(x) && is_nan(y) {
        true
    } else if is_zero(x) && is_zero(y) {
        proof {
            lemma_zero_bits(x.bits);
            lemma_zero_bits(y.bits);
        }
        (is_neg_zero(x) && is_neg_zero(y)) || (is_pos_zero(x) && is_pos_zero(y))
    } else {
        proof {
            let (a, b) = (x.bits, y.bits);
            assert(nan_bits(a) && a == b ==> nan_bits(b));
        }
        x.bits == y.bits
    }
}

/// Number::sameValueZero.
pub fn e262_same_value_zero(x: Number, y: Number) -> (r: bool)
    ensures
        r == number_same_value_zero_spec(x.bits, y.bits),
{
    if is_nan(x) && is_nan(y) {
        true
    } else if is_zero(x) && is_zero(y) {
        true
    } else {
        x.bits == y.bits
    }
}

/// An integer clamped into `[lo, hi]`.
pub open spec fn clamp(x: int, lo: int, hi: int) -> int {
    if x < lo {
        lo
    } else if x > hi {
        hi
    } else {
        x
    }
}

/// The significand of a normal number, as the bits that make it.
proof fn lemma_normal_significand(b: u64)
    requires
        biased_exponent(b) != 0,
    ensures
        significand(b) == (b & FRACTION_MASK) | 0x10_0000_0000_0000u64,
        significand(b) < pow2(53),
        significand(b) >= pow2(52),
{
    lemma2_to64();
    lemma2_to64_rest();
    assert(b & 0x000f_ffff_ffff_ffffu64 <= 0x000f_ffff_ffff_ffffu64) by (bit_vector);
    assert(((b & 0x000f_ffff_ffff_ffffu64) | 0x10_0000_0000_0000u64) == (b
        & 0x000f_ffff_ffff_ffffu64) + 0x10_0000_0000_0000u64) by (bit_vector);
}

/// The integer part of a magnitude is not negative.
proof fn lemma_magnitude_nonnegative(b: u64)
    ensures
        magnitude_floor(b) >= 0,
{
    let e = biased_exponent(b);
    if e != 0 {
        lemma_normal_significand(b);
        if e >= 1075 {
            lemma_pow2_pos((e - 1075) as nat);
            assert(significand(b) * pow2((e - 1075) as nat) >= 0) by (nonlinear_arith)
                requires
                    significand(b) >= 0,
                    pow2((e - 1075) as nat) > 0,
            {
            }
        } else {
            lemma_pow2_pos((1075 - e) as nat);
        }
    }
}

/// Clearing the low `k` bits of a number with a biased exponent of
/// `1075 - k` keeps its sign, its exponent and the integer part of its
/// significand.
proof fn lemma_clear_low_bits(b: u64, k: u64, r: u64)
    requires
        1 <= k <= 52,
        r == b & !(((1u64 << k) - 1u64) as u64),
    ensures
        r & EXPONENT_MASK == b & EXPONENT_MASK,
        r & SIGN_MASK == b & SIGN_MASK,
        ((r & FRACTION_MASK) | 0x10_0000_0000_0000u64) >> k == ((b & FRACTION_MASK)
            | 0x10_0000_0000_0000u64) >> k,
{
    assert(r & 0x7ff0_0000_0000_0000u64 == b & 0x7ff0_0000_0000_0000u64) by (bit_vector)
        requires
            1 <= k <= 52,
            r == b & !(((1u64 << k) - 1u64) as u64),
    ;
    assert(r & 0x8000_0000_0000_0000u64 == b & 0x8000_0000_0000_0000u64) by (bit_vector)
        requires
            1 <= k <= 52,
            r == b & !(((1u64 << k) - 1u64) as u64),
    ;
    assert(((r & 0x000f_ffff_ffff_ffffu64) | 0x10_0000_0000_0000u64) >> k == ((b
        & 0x000f_ffff_ffff_ffffu64) | 0x10_0000_0000_0000u64) >> k) by (bit_vector)
        requires
            1 <= k <= 52,
            r == b & !(((1u64 << k) - 1u64) as u64),
    ;
}

/// The fields of a finite number with a biased exponent below 1023 make a
/// magnitude below one.
proof fn lemma_below_one(b: u64)
    requires
        biased_exponent(b) < 1023,
    ensures
        magnitude_floor(b) == 0,
{
    let e = biased_exponent(b);
    if e != 0 {
        lemma2_to64();
    lemma2_to64_rest();
        lemma_normal_significand(b);
        if 53 < 1075 - e {
            lemma_pow2_strictly_increases(53, (1075 - e) as nat);
        }
        lemma_basic_div(significand(b), pow2((1075 - e) as nat) as int);
    }
}

/// A finite number truncated toward zero.
pub fn truncate(value: Number) -> (r: Number)
    requires
        finite_bits(value.bits),
    ensures
        finite_bits(r.bits),
        integral_bits(r.bits),
        negative_bits(r.bits) == negative_bits(value.bits),
        truncated(r.bits) == truncated(value.bits),
{
    let b = value.bits;
    let e = (b & EXPONENT_MASK) >> 52;
    assert(b & EXPONENT_MASK != EXPONENT_MASK ==> (b & EXPONENT_MASK) >> 52u64 < 2047)
        by (bit_vector);
    if e < 1023 {
        let r = b & SIGN_MASK;
        proof {
            lemma_below_one(b);
            assert((b & 0x8000_0000_0000_0000u64) & 0x7ff0_0000_0000_0000u64 == 0) by (bit_vector);
            assert(((b & 0x8000_0000_0000_0000u64) & 0x7ff0_0000_0000_0000u64) >> 52u64 == 0)
                by (bit_vector);
            assert((b & 0x8000_0000_0000_0000u64) & !0x8000_0000_0000_0000u64 == 0) by (bit_vector);
            assert((b & 0x8000_0000_0000_0000u64) & 0x8000_0000_0000_0000u64 == b
                & 0x8000_0000_0000_0000u64) by (bit_vector);
        }
        Number { bits: r }
    } else if e >= 1075 {
        value
    } else {
        let k: u64 = 1075 - e;
        assert(1u64 <= k <= 52u64 ==> (1u64 << k) >= 1u64) by (bit_vector);
        let mask: u64 = (1u64 << k) - 1;
        let r = b & !mask;
        proof {
            lemma_clear_low_bits(b, k, r);
            assert(biased_exponent(r) == biased_exponent(b));
            lemma_normal_significand(b);
            lemma_normal_significand(r);
            lemma_u64_shr_is_div((r & FRACTION_MASK) | 0x10_0000_0000_0000u64, k);
            lemma_u64_shr_is_div((b & FRACTION_MASK) | 0x10_0000_0000_0000u64, k);
            assert((r & 0x000f_ffff_ffff_ffffu64) & (((1u64 << k) - 1u64) as u64) == 0)
                by (bit_vector)
                requires
                    1 <= k <= 52,
                    r == b & !(((1u64 << k) - 1u64) as u64),
            ;
            lemma_u64_low_bits_mask_is_mod(r & FRACTION_MASK, k as nat);
            lemma_u64_pow2_no_overflow(k as nat);
            lemma_u64_shl_is_mul(1, k);
            assert(low_bits_mask(k as nat) == pow2(k as nat) - 1);
        }
        Number { bits: r }
    }
}

/// A finite number truncated toward zero and clamped into
/// `[0, MAX_SAFE_INTEGER]`.
pub fn clamp_length(value: Number) -> (r: u64)
    requires
        finite_bits(value.bits),
    ensures
        r == clamp(truncated(value.bits), 0, MAX_SAFE_INTEGER as int),
{
    let b = value.bits;
    let e = (b & EXPONENT_MASK) >> 52;
    proof {
        lemma2_to64();
    lemma2_to64_rest();
        lemma_magnitude_nonnegative(b);
    }
    if b & SIGN_MASK != 0 {
        assert(truncated(b) <= 0);
        0
    } else if e < 1023 {
        proof {
            lemma_below_one(b);
        }
        0
    } else if e >= 1075 {
        proof {
            lemma_normal_significand(b);
        }
        let sig = (b & FRACTION_MASK) | 0x10_0000_0000_0000u64;
        if e == 1075 {
            assert(pow2(0) == 1);
            assert(significand(b) * pow2(0) == significand(b));
            assert(magnitude_floor(b) == significand(b));
            sig
        } else {
            proof {
                lemma_pow2_strictly_increases(0, (e - 1075) as nat);
                assert(significand(b) * pow2((e - 1075) as nat) >= significand(b) * 2)
                    by (nonlinear_arith)
                    requires
                        significand(b) >= 0,
                        pow2((e - 1075) as nat) >= 2,
                {
                }
            }
            MAX_SAFE_INTEGER
        }
    } else {
        proof {
            lemma_normal_significand(b);
        }
        let k: u64 = 1075 - e;
        let sig = (b & FRACTION_MASK) | 0x10_0000_0000_0000u64;
        proof {
            lemma_u64_shr_is_div(sig, k);
            assert(sig >> k <= sig) by (bit_vector);
            assert(magnitude_floor(b) == sig >> k);
        }
        sig >> k
    }
}

} // verus!
