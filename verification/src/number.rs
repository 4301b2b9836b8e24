//! Numbers as IEEE 754 binary64 bit patterns.
//!
//! Bit 63 is the sign, the low 63 bits are the magnitude (exponent and
//! fraction). Magnitudes order finite values and infinity as unsigned
//! integers; a magnitude above that of infinity is a NaN.

use vstd::prelude::*;

verus! {

/// The sign bit of a pattern.
pub const SIGN_BIT: u64 = 0x8000_0000_0000_0000;

/// The exponent and fraction bits of a pattern.
pub const MAGNITUDE_MASK: u64 = 0x7fff_ffff_ffff_ffff;

/// The magnitude of infinity: all exponent bits set, no fraction bit.
pub const INFINITY_MAGNITUDE: u64 = 0x7ff0_0000_0000_0000;

/// The pattern with its sign bit cleared.
pub open spec fn magnitude(bits: u64) -> u64 {
    bits & MAGNITUDE_MASK
}

/// Whether the sign bit is set.
pub open spec fn is_negative(bits: u64) -> bool {
    bits & SIGN_BIT != 0
}

/// Whether the pattern is a NaN.
pub open spec fn is_nan(bits: u64) -> bool {
    magnitude(bits) > INFINITY_MAGNITUDE
}

/// Whether the pattern is positive or negative zero.
pub open spec fn is_zero(bits: u64) -> bool {
    magnitude(bits) == 0
}

/// The position of a non-NaN pattern on the number line: values order as
/// their keys do, and both zeros have key 0.
pub open spec fn order_key(bits: u64) -> int {
    if is_negative(bits) {
        -(magnitude(bits) as int)
    } else {
        magnitude(bits) as int
    }
}

/// IEEE equality: a NaN equals nothing, the two zeros are equal.
pub open spec fn number_eq(a: u64, b: u64) -> bool {
    !is_nan(a) && !is_nan(b) && order_key(a) == order_key(b)
}

/// IEEE `<`: false whenever a NaN takes part.
pub open spec fn number_lt(a: u64, b: u64) -> bool {
    !is_nan(a) && !is_nan(b) && order_key(a) < order_key(b)
}

/// IEEE `<=`: false whenever a NaN takes part.
pub open spec fn number_le(a: u64, b: u64) -> bool {
    !is_nan(a) && !is_nan(b) && order_key(a) <= order_key(b)
}

/// The pattern with its sign bit flipped, which is IEEE negation.
pub open spec fn negated(bits: u64) -> u64 {
    bits ^ SIGN_BIT
}

/// A pattern is its magnitude together with its sign.
pub proof fn lemma_pattern_from_parts(a: u64, b: u64)
    requires
        magnitude(a) == magnitude(b),
        is_negative(a) == is_negative(b),
    ensures
        a == b,
{
    assert((a & 0x7fff_ffff_ffff_ffff) == (b & 0x7fff_ffff_ffff_ffff) && ((a
        & 0x8000_0000_0000_0000) != 0) == ((b & 0x8000_0000_0000_0000) != 0) ==> a == b)
        by (bit_vector);
}

/// Tells whether `bits` is a NaN.
pub fn nan(bits: u64) -> (r: bool)
    ensures
        r == is_nan(bits),
{
    (bits & MAGNITUDE_MASK) > INFINITY_MAGNITUDE
}

/// Tells whether `bits` is one of the two zeros.
pub fn zero(bits: u64) -> (r: bool)
    ensures
        r == is_zero(bits),
{
    (bits & MAGNITUDE_MASK) == 0
}

/// Negates a number.
pub fn negate(bits: u64) -> (r: u64)
    ensures
        r == negated(bits),
{
    bits ^ SIGN_BIT
}

/// Compares two numbers for IEEE equality.
pub fn equal(a: u64, b: u64) -> (r: bool)
    ensures
        r == number_eq(a, b),
{
    if nan(a) || nan(b) {
        false
    } else if zero(a) && zero(b) {
        true
    } else {
        proof {
            if order_key(a) == order_key(b) {
                lemma_pattern_from_parts(a, b);
            }
        }
        a == b
    }
}

/// Tells whether `a` is below `b` in IEEE order.
pub fn less(a: u64, b: u64) -> (r: bool)
    ensures
        r == number_lt(a, b),
{
    if nan(a) || nan(b) {
        return false;
    }
    let ma: u64 = a & MAGNITUDE_MASK;
    let mb: u64 = b & MAGNITUDE_MASK;
    let na: bool = a & SIGN_BIT != 0;
    let nb: bool = b & SIGN_BIT != 0;
    if na {
        if nb {
            ma > mb
        } else {
            ma != 0 || mb != 0
        }
    } else {
        if nb {
            false
        } else {
            ma < mb
        }
    }
}

/// Tells whether `a` is below or equal to `b` in IEEE order.
pub fn less_equal(a: u64, b: u64) -> (r: bool)
    ensures
        r == number_le(a, b),
{
    less(a, b) || equal(a, b)
}

} // verus!
