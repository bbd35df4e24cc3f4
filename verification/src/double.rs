//! Doubles as IEEE-754 bit patterns.
//!
//! A double is a `u64`: one sign bit, eleven exponent bits, fifty-two fraction
//! bits. Everything here is exact integer reasoning about those bits; nothing
//! is rounded.

use vstd::prelude::*;

verus! {

/// The sign bit.
pub const SIGN: u64 = 0x8000_0000_0000_0000;

/// The bit pattern of positive infinity; every larger magnitude is a NaN.
pub const INFINITY: u64 = 0x7FF0_0000_0000_0000;

/// The bit pattern of `0.0`.
pub const ZERO: u64 = 0;

/// The bit pattern of `1.0`.
pub const ONE: u64 = 0x3FF0_0000_0000_0000;

/// The bit pattern of `2.0`.
pub const TWO: u64 = 0x4000_0000_0000_0000;

/// The bit pattern of `5.0`.
pub const FIVE: u64 = 0x4014_0000_0000_0000;

/// The bit pattern of `10.0`.
pub const TEN: u64 = 0x4024_0000_0000_0000;

/// The bit pattern of `-10.0`.
pub const MINUS_TEN: u64 = 0xC024_0000_0000_0000;

/// The bit pattern of `100.0`.
pub const HUNDRED: u64 = 0x4059_0000_0000_0000;

/// The bit pattern of the double nearest to `0.1`.
pub const TENTH: u64 = 0x3FB9_9999_9999_999A;

/// The bits without the sign: the bit pattern of the absolute value.
pub open spec fn spec_magnitude(bits: u64) -> u64 {
    if bits >= SIGN {
        (bits - SIGN) as u64
    } else {
        bits
    }
}

/// Whether the sign bit is set.
pub open spec fn spec_is_negative(bits: u64) -> bool {
    bits >= SIGN
}

/// Whether the bits are those of a NaN: a magnitude above infinity.
pub open spec fn spec_is_nan(bits: u64) -> bool {
    spec_magnitude(bits) > INFINITY
}

/// Whether the bits are those of a finite double: a magnitude below infinity.
pub open spec fn spec_is_finite(bits: u64) -> bool {
    spec_magnitude(bits) < INFINITY
}

/// A number that orders the doubles other than NaN as their values are ordered:
/// the magnitude, negated under a sign bit. Both zeros get 0.
pub open spec fn rank(bits: u64) -> int {
    if bits >= SIGN {
        -(spec_magnitude(bits) as int)
    } else {
        bits as int
    }
}

/// `a < b` as doubles: false as soon as one of them is a NaN.
pub open spec fn spec_lt(a: u64, b: u64) -> bool {
    !spec_is_nan(a) && !spec_is_nan(b) && rank(a) < rank(b)
}

/// The double restricted to `[lo, hi]`: a NaN stays as it is, a value below
/// `lo` becomes `lo`, one above `hi` becomes `hi`.
pub open spec fn spec_clamp(bits: u64, lo: u64, hi: u64) -> u64 {
    if spec_lt(bits, lo) {
        lo
    } else if spec_lt(hi, bits) {
        hi
    } else {
        bits
    }
}

/// The larger of two doubles; where one is a NaN, the other.
pub open spec fn spec_max(a: u64, b: u64) -> u64 {
    if spec_is_nan(a) {
        b
    } else if spec_is_nan(b) {
        a
    } else if spec_lt(a, b) {
        b
    } else {
        a
    }
}

/// The smaller of two doubles; where one is a NaN, the other.
pub open spec fn spec_min(a: u64, b: u64) -> u64 {
    if spec_is_nan(a) {
        b
    } else if spec_is_nan(b) {
        a
    } else if spec_lt(b, a) {
        b
    } else {
        a
    }
}

/// The bit pattern of the absolute value.
#[verifier::when_used_as_spec(spec_magnitude)]
pub fn magnitude(bits: u64) -> (m: u64)
    ensures
        m == spec_magnitude(bits),
        m < SIGN,
{
    if bits >= SIGN {
        bits - SIGN
    } else {
        bits
    }
}

/// Whether the sign bit is set.
#[verifier::when_used_as_spec(spec_is_negative)]
pub fn is_negative(bits: u64) -> (b: bool)
    ensures
        b == spec_is_negative(bits),
{
    bits >= SIGN
}

/// Whether the bits are those of a NaN.
#[verifier::when_used_as_spec(spec_is_nan)]
pub fn is_nan(bits: u64) -> (b: bool)
    ensures
        b == spec_is_nan(bits),
{
    magnitude(bits) > INFINITY
}

/// Whether the bits are those of a finite double.
#[verifier::when_used_as_spec(spec_is_finite)]
pub fn is_finite(bits: u64) -> (b: bool)
    ensures
        b == spec_is_finite(bits),
{
    magnitude(bits) < INFINITY
}

/// `a < b` as doubles.
#[verifier::when_used_as_spec(spec_lt)]
pub fn lt(a: u64, b: u64) -> (r: bool)
    ensures
        r == spec_lt(a, b),
{
    if is_nan(a) || is_nan(b) {
        false
    } else if a >= SIGN {
        if b >= SIGN {
            magnitude(a) > magnitude(b)
        } else {
            magnitude(a) > 0 || b > 0
        }
    } else {
        b < SIGN && a < b
    }
}

/// The double restricted to `[lo, hi]`.
#[verifier::when_used_as_spec(spec_clamp)]
pub fn clamp(bits: u64, lo: u64, hi: u64) -> (r: u64)
    ensures
        r == spec_clamp(bits, lo, hi),
{
    if lt(bits, lo) {
        lo
    } else if lt(hi, bits) {
        hi
    } else {
        bits
    }
}

/// The larger of two doubles.
#[verifier::when_used_as_spec(spec_max)]
pub fn max(a: u64, b: u64) -> (r: u64)
    ensures
        r == spec_max(a, b),
{
    if is_nan(a) {
        b
    } else if is_nan(b) {
        a
    } else if lt(a, b) {
        b
    } else {
        a
    }
}

/// The smaller of two doubles.
#[verifier::when_used_as_spec(spec_min)]
pub fn min(a: u64, b: u64) -> (r: u64)
    ensures
        r == spec_min(a, b),
{
    if is_nan(a) {
        b
    } else if is_nan(b) {
        a
    } else if lt(b, a) {
        b
    } else {
        a
    }
}

/// A clamped double is a NaN or lies within the bounds.
pub proof fn clamp_in_bounds(bits: u64, lo: u64, hi: u64)
    requires
        !spec_is_nan(lo),
        !spec_is_nan(hi),
        rank(lo) <= rank(hi),
    ensures
        spec_is_nan(bits) ==> spec_clamp(bits, lo, hi) == bits,
        !spec_is_nan(bits) ==> rank(lo) <= rank(spec_clamp(bits, lo, hi)) <= rank(hi),
{
}

} // verus!
