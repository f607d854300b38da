//! Single-precision numbers as their IEEE 754 bit patterns.
//!
//! Levels, positions and gains travel through the mixer as 32-bit words
//! that hold a binary32 number. Comparing and clamping need only the
//! order of such numbers, and that order can be read off the words.

use vstd::prelude::*;

verus! {

/// The word of positive zero.
pub const ZERO: u32 = 0x0000_0000;

/// The word of one.
pub const ONE: u32 = 0x3F80_0000;

/// The word of minus one.
pub const MINUS_ONE: u32 = 0xBF80_0000;

/// The word without its sign bit: the order of magnitudes is the order of
/// these numbers.
pub open spec fn magnitude(bits: u32) -> int {
    bits as int % 0x8000_0000
}

/// Whether the sign bit is set.
pub open spec fn is_negative(bits: u32) -> bool {
    bits >= 0x8000_0000
}

/// Whether the word holds no number: all exponent bits set and a fraction
/// other than zero.
pub open spec fn is_nan(bits: u32) -> bool {
    magnitude(bits) > 0x7F80_0000
}

/// A number by which words that hold numbers are ordered as the numbers
/// are. Both zeros have rank zero.
pub open spec fn rank(bits: u32) -> int {
    if is_negative(bits) {
        -magnitude(bits)
    } else {
        magnitude(bits)
    }
}

/// The comparison `a < b` of the numbers that the words hold. It is false
/// when either holds no number.
pub open spec fn less(a: u32, b: u32) -> bool {
    !is_nan(a) && !is_nan(b) && rank(a) < rank(b)
}

/// Whether `v` holds a number from `lo` to `hi`.
pub open spec fn within(v: u32, lo: u32, hi: u32) -> bool {
    !is_nan(v) && rank(lo) <= rank(v) <= rank(hi)
}

/// A pair of bounds: two numbers, the first no larger than the second.
pub open spec fn is_range(lo: u32, hi: u32) -> bool {
    !is_nan(lo) && !is_nan(hi) && rank(lo) <= rank(hi)
}

/// `v` held to the range from `lo` to `hi`. A word that holds no number
/// is taken to the lower bound.
pub open spec fn clamped(v: u32, lo: u32, hi: u32) -> u32 {
    if is_nan(v) || less(v, lo) {
        lo
    } else if less(hi, v) {
        hi
    } else {
        v
    }
}

/// The larger of two numbers; the first where they are equal or one of
/// them is no number.
pub open spec fn larger(a: u32, b: u32) -> u32 {
    if less(a, b) {
        b
    } else {
        a
    }
}

/// Whether the word holds no number.
pub fn holds_nan(bits: u32) -> (r: bool)
    ensures
        r == is_nan(bits),
{
    bits % 0x8000_0000 > 0x7F80_0000
}

/// Compares the numbers that two words hold.
pub fn is_less(a: u32, b: u32) -> (r: bool)
    ensures
        r == less(a, b),
{
    if holds_nan(a) || holds_nan(b) {
        return false;
    }
    let ma: u32 = a % 0x8000_0000;
    let mb: u32 = b % 0x8000_0000;
    let na: bool = a >= 0x8000_0000;
    let nb: bool = b >= 0x8000_0000;
    if na && nb {
        mb < ma
    } else if na {
        ma > 0 || mb > 0
    } else if nb {
        false
    } else {
        ma < mb
    }
}

/// Holds `v` to the range from `lo` to `hi`.
pub fn clamp(v: u32, lo: u32, hi: u32) -> (r: u32)
    requires
        is_range(lo, hi),
    ensures
        r == clamped(v, lo, hi),
        within(r, lo, hi),
{
    if holds_nan(v) || is_less(v, lo) {
        lo
    } else if is_less(hi, v) {
        hi
    } else {
        v
    }
}

/// Clamping a value that is in range changes nothing, and clamping twice
/// is clamping once.
pub proof fn lemma_clamped_idempotent(v: u32, lo: u32, hi: u32)
    requires
        is_range(lo, hi),
    ensures
        within(clamped(v, lo, hi), lo, hi),
        within(v, lo, hi) ==> clamped(v, lo, hi) == v,
        clamped(clamped(v, lo, hi), lo, hi) == clamped(v, lo, hi),
{
}

} // verus!
