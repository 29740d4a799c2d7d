//! Double-precision numbers by their bit patterns.
//!
//! A double-precision number is a sign bit followed by 63 bits of magnitude:
//! eleven bits of exponent, then the fraction. This module tells from the
//! bit pattern what kind of number it is, and how two numbers compare. It
//! does no arithmetic on them.
//!
//! Of two numbers of the same sign the one with the larger magnitude is
//! further from zero, so the bit patterns themselves, read as unsigned
//! integers, do not order as the numbers do. The order key of a bit pattern
//! is an integer that does.

use vstd::prelude::*;

verus! {

/// The bit pattern whose only bit set is the sign bit.
pub const SIGN_BIT: u64 = 0x8000_0000_0000_0000;

/// The bit pattern of plus infinity: every bit of the exponent set, none of
/// the fraction. A larger magnitude is no number (NaN).
pub const INFINITY: u64 = 0x7ff0_0000_0000_0000;

/// The bit pattern of minus infinity.
pub const NEG_INFINITY: u64 = 0xfff0_0000_0000_0000;

/// The bit pattern of plus zero.
pub const ZERO: u64 = 0;

/// Whether the sign bit of `bits` is set.
pub open spec fn is_negative(bits: u64) -> bool {
    bits >= SIGN_BIT
}

/// The 63 bits of `bits` below the sign bit.
pub open spec fn magnitude(bits: u64) -> int {
    if bits >= SIGN_BIT {
        bits - SIGN_BIT
    } else {
        bits as int
    }
}

/// Whether `bits` is the bit pattern of no number (NaN).
pub open spec fn spec_is_nan(bits: u64) -> bool {
    magnitude(bits) > INFINITY
}

/// Whether `bits` is the bit pattern of a number that is not infinite.
pub open spec fn spec_is_finite(bits: u64) -> bool {
    magnitude(bits) < INFINITY
}

/// Whether the number with the bit pattern `a` is below the number with the
/// bit pattern `b`, for two numbers that are not NaN: a negative number is
/// below a positive one unless both are zero, and of two numbers of the same
/// sign the magnitudes tell.
pub open spec fn is_below(a: u64, b: u64) -> bool {
    if is_negative(a) && is_negative(b) {
        magnitude(a) > magnitude(b)
    } else if is_negative(a) {
        !(magnitude(a) == 0 && magnitude(b) == 0)
    } else if is_negative(b) {
        false
    } else {
        magnitude(a) < magnitude(b)
    }
}

/// Whether the number with the bit pattern `a` is above the number with the
/// bit pattern `b`; nothing is above or below what is no number.
pub open spec fn spec_is_above(a: u64, b: u64) -> bool {
    !is_nan(a) && !is_nan(b) && is_below(b, a)
}

/// Whether the number with the bit pattern `a` is at most the number with the
/// bit pattern `b`: the two are numbers, and `a` is not above `b`.
pub open spec fn spec_is_at_most(a: u64, b: u64) -> bool {
    !is_nan(a) && !is_nan(b) && !is_below(b, a)
}

/// The bit pattern of the absolute value: `bits` without the sign bit.
pub open spec fn spec_absolute(bits: u64) -> u64 {
    magnitude(bits) as u64
}

/// The order key of the bit pattern `bits`: the magnitude for a pattern
/// without the sign bit, and what is as far below zero, less one, for a
/// pattern with it.
pub open spec fn key_of(bits: u64) -> int {
    if is_negative(bits) {
        -1 - magnitude(bits)
    } else {
        magnitude(bits)
    }
}

/// The order key of the double-precision number with the bit pattern `bits`.
pub fn order_key(bits: u64) -> (key: i64)
    ensures
        key == key_of(bits),
{
    if bits >= SIGN_BIT {
        let magnitude: u64 = bits - SIGN_BIT;
        -1 - (magnitude as i64)
    } else {
        bits as i64
    }
}

/// Whether `bits` is the bit pattern of no number (NaN).
#[verifier::when_used_as_spec(spec_is_nan)]
pub fn is_nan(bits: u64) -> (nan: bool)
    ensures
        nan == is_nan(bits),
{
    if bits >= SIGN_BIT {
        bits - SIGN_BIT > INFINITY
    } else {
        bits > INFINITY
    }
}

/// Whether `bits` is the bit pattern of a number that is not infinite.
#[verifier::when_used_as_spec(spec_is_finite)]
pub fn is_finite(bits: u64) -> (finite: bool)
    ensures
        finite == is_finite(bits),
{
    if bits >= SIGN_BIT {
        bits - SIGN_BIT < INFINITY
    } else {
        bits < INFINITY
    }
}

/// Whether the number with the bit pattern `a` is above the number with the
/// bit pattern `b`.
#[verifier::when_used_as_spec(spec_is_above)]
pub fn is_above(a: u64, b: u64) -> (above: bool)
    ensures
        above == is_above(a, b),
{
    proof {
        lemma_keys_order_as_numbers(b, a);
    }
    !is_nan(a) && !is_nan(b) && order_key(b) < order_key(a) && !(b == SIGN_BIT && a == 0)
}

/// Whether the number with the bit pattern `a` is at most the number with the
/// bit pattern `b`.
#[verifier::when_used_as_spec(spec_is_at_most)]
pub fn is_at_most(a: u64, b: u64) -> (at_most: bool)
    ensures
        at_most == is_at_most(a, b),
{
    proof {
        lemma_keys_order_as_numbers(b, a);
    }
    !is_nan(a) && !is_nan(b) && !(order_key(b) < order_key(a) && !(b == SIGN_BIT && a == 0))
}

/// The bit pattern of the absolute value of the number with the bit pattern
/// `bits`.
#[verifier::when_used_as_spec(spec_absolute)]
pub fn absolute(bits: u64) -> (magnitude: u64)
    ensures
        magnitude == absolute(bits),
{
    if bits >= SIGN_BIT {
        bits - SIGN_BIT
    } else {
        bits
    }
}

/// Order keys order as the numbers do: the key of one number is below the key
/// of another exactly when the number is below the other, or when the two are
/// minus zero and plus zero, which are equal as numbers.
pub proof fn lemma_keys_order_as_numbers(a: u64, b: u64)
    ensures
        key_of(a) < key_of(b) <==> is_below(a, b) || (a == SIGN_BIT && b == 0),
        key_of(a) == key_of(b) <==> a == b,
{
}

} // verus!
