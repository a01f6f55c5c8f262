//! IEEE-754 double-precision numbers, held by their bit patterns.
//!
//! Bit 63 is the sign; the remaining 63 bits are the magnitude, which grows
//! with the absolute value of the number it encodes. Magnitudes above that of
//! infinity encode NaN.

use vstd::prelude::*;

verus! {

/// The bit that holds the sign.
pub const SIGN_BIT: u64 = 0x8000_0000_0000_0000;

/// The magnitude of infinity; every larger magnitude is a NaN.
pub const INFINITY_BITS: u64 = 0x7ff0_0000_0000_0000;

/// Whether the sign bit is set.
pub open spec fn is_negative(bits: u64) -> bool {
    bits >= SIGN_BIT
}

/// The pattern without its sign bit.
pub open spec fn magnitude(bits: u64) -> int {
    if bits >= SIGN_BIT {
        bits - SIGN_BIT
    } else {
        bits as int
    }
}

/// Whether the pattern encodes a NaN.
pub open spec fn is_nan(bits: u64) -> bool {
    magnitude(bits) > INFINITY_BITS
}

/// Whether the pattern encodes positive or negative zero.
pub open spec fn is_zero(bits: u64) -> bool {
    magnitude(bits) == 0
}

/// The place of a number on the number line: two numbers that are not NaN
/// compare as their ordinals do. Both zeros have ordinal 0.
pub open spec fn ordinal(bits: u64) -> int {
    if is_negative(bits) {
        -magnitude(bits)
    } else {
        magnitude(bits)
    }
}

/// IEEE-754 `==`: false whenever a NaN is involved, and the two zeros are equal.
pub open spec fn equal(a: u64, b: u64) -> bool {
    !is_nan(a) && !is_nan(b) && ordinal(a) == ordinal(b)
}

/// IEEE-754 `<`: false whenever a NaN is involved.
pub open spec fn less(a: u64, b: u64) -> bool {
    !is_nan(a) && !is_nan(b) && ordinal(a) < ordinal(b)
}

/// IEEE-754 `<=`: false whenever a NaN is involved.
pub open spec fn less_equal(a: u64, b: u64) -> bool {
    !is_nan(a) && !is_nan(b) && ordinal(a) <= ordinal(b)
}

/// The pattern with its sign bit flipped, which is how a double is negated.
pub open spec fn negated(bits: u64) -> u64 {
    if bits >= SIGN_BIT {
        (bits - SIGN_BIT) as u64
    } else {
        (bits + SIGN_BIT) as u64
    }
}

/// The four operations on numbers that round. They are not computed here:
/// whoever evaluates an expression hands in a function that computes them.
#[derive(Clone, Copy, Debug, PartialEq, Eq, Structural)]
pub enum Operation {
    Add,
    Subtract,
    Multiply,
    Divide,
}

/// Tells whether `bits` encodes a NaN.
pub fn nan(bits: u64) -> (r: bool)
    ensures
        r == is_nan(bits),
{
    if bits >= SIGN_BIT {
        bits - SIGN_BIT > INFINITY_BITS
    } else {
        bits > INFINITY_BITS
    }
}

/// Tells whether `bits` encodes one of the two zeros.
pub fn zero(bits: u64) -> (r: bool)
    ensures
        r == is_zero(bits),
{
    bits == 0 || bits == SIGN_BIT
}

/// Negates a number by flipping its sign bit. A NaN stays a NaN.
pub fn neg(bits: u64) -> (r: u64)
    ensures
        r == negated(bits),
        magnitude(r) == magnitude(bits),
        is_negative(r) != is_negative(bits),
{
    if bits >= SIGN_BIT {
        bits - SIGN_BIT
    } else {
        bits + SIGN_BIT
    }
}

/// `a == b` as IEEE-754 defines it.
pub fn eq(a: u64, b: u64) -> (r: bool)
    ensures
        r == equal(a, b),
{
    if nan(a) || nan(b) {
        false
    } else if zero(a) {
        zero(b)
    } else {
        a == b
    }
}

/// `a < b` as IEEE-754 defines it.
pub fn lt(a: u64, b: u64) -> (r: bool)
    ensures
        r == less(a, b),
{
    if nan(a) || nan(b) {
        false
    } else if a >= SIGN_BIT {
        if b >= SIGN_BIT {
            a > b
        } else {
            !(zero(a) && zero(b))
        }
    } else {
        b < SIGN_BIT && a < b
    }
}

/// `a <= b` as IEEE-754 defines it.
pub fn le(a: u64, b: u64) -> (r: bool)
    ensures
        r == less_equal(a, b),
{
    if nan(a) || nan(b) {
        false
    } else if a >= SIGN_BIT {
        if b >= SIGN_BIT {
            a >= b
        } else {
            true
        }
    } else if b >= SIGN_BIT {
        zero(a) && zero(b)
    } else {
        a <= b
    }
}

/// `a > b` as IEEE-754 defines it.
pub fn gt(a: u64, b: u64) -> (r: bool)
    ensures
        r == less(b, a),
{
    lt(b, a)
}

/// `a >= b` as IEEE-754 defines it.
pub fn ge(a: u64, b: u64) -> (r: bool)
    ensures
        r == less_equal(b, a),
{
    le(b, a)
}

/// Negating twice gives the number back.
pub proof fn lemma_negated_twice(bits: u64)
    ensures
        negated(negated(bits)) == bits,
{
}

/// Negation mirrors the number line: it negates the ordinal and keeps NaNs.
pub proof fn lemma_negated_ordinal(bits: u64)
    ensures
        ordinal(negated(bits)) == -ordinal(bits),
        is_nan(negated(bits)) == is_nan(bits),
{
}

/// Of two numbers that are not NaN exactly one of `<`, `==`, `>` holds, and
/// `<=` is `<` or `==`.
pub proof fn lemma_trichotomy(a: u64, b: u64)
    ensures
        less_equal(a, b) == (less(a, b) || equal(a, b)),
        !is_nan(a) && !is_nan(b) ==> (less(a, b) || equal(a, b) || less(b, a)),
        !(less(a, b) && less(b, a)),
        !(less(a, b) && equal(a, b)),
{
}

} // verus!
