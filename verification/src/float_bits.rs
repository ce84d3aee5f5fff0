//! IEEE-754 comparisons of binary64 values given by their bit patterns.
//!
//! A binary64 value is NaN when its exponent bits are all ones and its
//! significand is not zero, that is when its magnitude bits (all bits but the
//! sign) exceed `0x7FF0_0000_0000_0000`.  Every other value is ordered by its
//! signed magnitude: the magnitude bits, negated when the sign bit is set.
//! Both zeros have signed magnitude 0 and compare equal; this is the order that
//! `<`, `<=` and `==` on `f64` follow.
use vstd::prelude::*;

verus! {

/// The bit pattern of `0.0`.
pub const ZERO_BITS: u64 = 0u64;

/// The bit pattern of `1.0`.
pub const ONE_BITS: u64 = 0x3FF0_0000_0000_0000u64;

/// The value of the sign bit.
pub open spec fn sign_bit() -> int {
    0x8000_0000_0000_0000int
}

/// The magnitude bits of `x` (all bits but the sign).
pub open spec fn magnitude(x: u64) -> int {
    if x < sign_bit() {
        x as int
    } else {
        x - sign_bit()
    }
}

/// Whether `x` is a NaN.
pub open spec fn is_nan(x: u64) -> bool {
    magnitude(x) > 0x7FF0_0000_0000_0000int
}

/// The signed magnitude of `x`, which orders non-NaN values as `f64` does.
pub open spec fn signed_magnitude(x: u64) -> int {
    if x < sign_bit() {
        magnitude(x)
    } else {
        -magnitude(x)
    }
}

/// `a < b` on the binary64 values of `a` and `b`.
pub open spec fn spec_lt(a: u64, b: u64) -> bool {
    !is_nan(a) && !is_nan(b) && signed_magnitude(a) < signed_magnitude(b)
}

/// `a <= b` on the binary64 values of `a` and `b`.
pub open spec fn spec_le(a: u64, b: u64) -> bool {
    !is_nan(a) && !is_nan(b) && signed_magnitude(a) <= signed_magnitude(b)
}

/// `a == b` on the binary64 values of `a` and `b`.
pub open spec fn spec_eq(a: u64, b: u64) -> bool {
    !is_nan(a) && !is_nan(b) && signed_magnitude(a) == signed_magnitude(b)
}

fn magnitude_of(x: u64) -> (m: u64)
    ensures
        m as int == magnitude(x),
        m < 0x8000_0000_0000_0000u64,
{
    if x < 0x8000_0000_0000_0000u64 {
        x
    } else {
        x - 0x8000_0000_0000_0000u64
    }
}

/// Whether `x` is a NaN.
pub fn f64_is_nan(x: u64) -> (r: bool)
    ensures
        r == is_nan(x),
{
    magnitude_of(x) > 0x7FF0_0000_0000_0000u64
}

/// `a < b` on binary64 values.
pub fn f64_lt(a: u64, b: u64) -> (r: bool)
    ensures
        r == spec_lt(a, b),
{
    if f64_is_nan(a) || f64_is_nan(b) {
        return false;
    }
    let ma = magnitude_of(a);
    let mb = magnitude_of(b);
    let na = a >= 0x8000_0000_0000_0000u64;
    let nb = b >= 0x8000_0000_0000_0000u64;
    if !na && !nb {
        ma < mb
    } else if na && nb {
        mb < ma
    } else if na {
        // a <= 0 <= b, equal only when both are zeros
        !(ma == 0 && mb == 0)
    } else {
        false
    }
}

/// `a <= b` on binary64 values.
pub fn f64_le(a: u64, b: u64) -> (r: bool)
    ensures
        r == spec_le(a, b),
{
    if f64_is_nan(a) || f64_is_nan(b) {
        return false;
    }
    !f64_lt(b, a)
}

/// `a == b` on binary64 values.
pub fn f64_eq(a: u64, b: u64) -> (r: bool)
    ensures
        r == spec_eq(a, b),
{
    f64_le(a, b) && f64_le(b, a)
}

} // verus!
