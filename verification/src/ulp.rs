//! The distance of two floating-point numbers in units in the last place:
//! how many steps from one representable number to the next lie between them.
//!
//! A floating-point number is taken here by its bits, as IEEE 754 lays them
//! out: the sign in the highest bit, below it the exponent and the fraction,
//! which together are the magnitude. Among numbers of one sign the magnitudes
//! are ordered as the numbers are, and neighbours differ by one.

use vstd::prelude::*;

verus! {

/// What the comparison of two floating-point numbers in units in the last
/// place gives.
#[derive(Debug, Copy, Clone, PartialEq)]
pub enum UlpComparisonResult {
    /// The two numbers are equal; plus and minus zero are.
    ExactMatch,
    /// The two numbers are of one sign and this many steps apart.
    Difference(u64),
    /// The two numbers are of different signs: no distance is defined.
    IncompatibleSigns,
    /// One of the two is not a number.
    Nan,
}

/// A type whose values have a distance in units in the last place.
pub trait Ulp: Sized {
    /// The distance of `a` and `b`. Left open by a type that does not say
    /// what it is.
    open spec fn ulp_difference(a: Self, b: Self) -> UlpComparisonResult {
        arbitrary()
    }

    /// Computes the distance of `a` and `b`.
    fn ulp_diff(a: &Self, b: &Self) -> (r: UlpComparisonResult)
        ensures
            r == Self::ulp_difference(*a, *b),
    ;
}

/// A floating-point number of 64 bits, by its bits.
#[derive(Debug, Copy, Clone, PartialEq, Eq)]
pub struct Binary64 {
    pub bits: u64,
}

/// A floating-point number of 32 bits, by its bits.
#[derive(Debug, Copy, Clone, PartialEq, Eq)]
pub struct Binary32 {
    pub bits: u32,
}

/// The bits of a number of 64 bits below the sign.
pub open spec fn magnitude64(bits: u64) -> u64 {
    (bits % 0x8000_0000_0000_0000) as u64
}

/// Whether the sign bit of a number of 64 bits is set.
pub open spec fn is_negative64(bits: u64) -> bool {
    bits >= 0x8000_0000_0000_0000
}

/// Whether the bits are not a number: the exponent all ones, the fraction not zero.
pub open spec fn is_nan64(bits: u64) -> bool {
    magnitude64(bits) > 0x7ff0_0000_0000_0000
}

/// Whether two numbers of 64 bits are equal: both numbers, and of the same
/// bits or both zero.
pub open spec fn are_equal64(a: u64, b: u64) -> bool {
    !is_nan64(a) && !is_nan64(b) && (a == b || (magnitude64(a) == 0 && magnitude64(b) == 0))
}

/// The distance of two numbers of 64 bits by their bits.
pub open spec fn ulp_difference64(a: u64, b: u64) -> UlpComparisonResult {
    if are_equal64(a, b) {
        UlpComparisonResult::ExactMatch
    } else if is_nan64(a) || is_nan64(b) {
        UlpComparisonResult::Nan
    } else if is_negative64(a) != is_negative64(b) {
        UlpComparisonResult::IncompatibleSigns
    } else if magnitude64(a) >= magnitude64(b) {
        UlpComparisonResult::Difference((magnitude64(a) - magnitude64(b)) as u64)
    } else {
        UlpComparisonResult::Difference((magnitude64(b) - magnitude64(a)) as u64)
    }
}

/// The distance of the two numbers of 64 bits that have the bits `a` and `b`.
pub fn ulp_diff_binary64(a: u64, b: u64) -> (r: UlpComparisonResult)
    ensures
        r == ulp_difference64(a, b),
{
    let magnitude_a: u64 = a % 0x8000_0000_0000_0000u64;
    let magnitude_b: u64 = b % 0x8000_0000_0000_0000u64;
    let nan_a: bool = magnitude_a > 0x7ff0_0000_0000_0000u64;
    let nan_b: bool = magnitude_b > 0x7ff0_0000_0000_0000u64;
    let negative_a: bool = a >= 0x8000_0000_0000_0000u64;
    let negative_b: bool = b >= 0x8000_0000_0000_0000u64;
    if nan_a || nan_b {
        UlpComparisonResult::Nan
    } else if a == b || (magnitude_a == 0 && magnitude_b == 0) {
        UlpComparisonResult::ExactMatch
    } else if negative_a != negative_b {
        UlpComparisonResult::IncompatibleSigns
    } else if magnitude_a >= magnitude_b {
        UlpComparisonResult::Difference(magnitude_a - magnitude_b)
    } else {
        UlpComparisonResult::Difference(magnitude_b - magnitude_a)
    }
}

/// The bits of a number of 32 bits below the sign.
pub open spec fn magnitude32(bits: u32) -> u32 {
    (bits % 0x8000_0000) as u32
}

/// Whether the sign bit of a number of 32 bits is set.
pub open spec fn is_negative32(bits: u32) -> bool {
    bits >= 0x8000_0000
}

/// Whether the bits are not a number: the exponent all ones, the fraction not zero.
pub open spec fn is_nan32(bits: u32) -> bool {
    magnitude32(bits) > 0x7f80_0000
}

/// Whether two numbers of 32 bits are equal: both numbers, and of the same
/// bits or both zero.
pub open spec fn are_equal32(a: u32, b: u32) -> bool {
    !is_nan32(a) && !is_nan32(b) && (a == b || (magnitude32(a) == 0 && magnitude32(b) == 0))
}

/// The distance of two numbers of 32 bits by their bits.
pub open spec fn ulp_difference32(a: u32, b: u32) -> UlpComparisonResult {
    if are_equal32(a, b) {
        UlpComparisonResult::ExactMatch
    } else if is_nan32(a) || is_nan32(b) {
        UlpComparisonResult::Nan
    } else if is_negative32(a) != is_negative32(b) {
        UlpComparisonResult::IncompatibleSigns
    } else if magnitude32(a) >= magnitude32(b) {
        UlpComparisonResult::Difference((magnitude32(a) - magnitude32(b)) as u64)
    } else {
        UlpComparisonResult::Difference((magnitude32(b) - magnitude32(a)) as u64)
    }
}

/// The distance of the two numbers of 32 bits that have the bits `a` and `b`.
pub fn ulp_diff_binary32(a: u32, b: u32) -> (r: UlpComparisonResult)
    ensures
        r == ulp_difference32(a, b),
{
    let magnitude_a: u32 = a % 0x8000_0000u32;
    let magnitude_b: u32 = b % 0x8000_0000u32;
    let nan_a: bool = magnitude_a > 0x7f80_0000u32;
    let nan_b: bool = magnitude_b > 0x7f80_0000u32;
    let negative_a: bool = a >= 0x8000_0000u32;
    let negative_b: bool = b >= 0x8000_0000u32;
    if nan_a || nan_b {
        UlpComparisonResult::Nan
    } else if a == b || (magnitude_a == 0 && magnitude_b == 0) {
        UlpComparisonResult::ExactMatch
    } else if negative_a != negative_b {
        UlpComparisonResult::IncompatibleSigns
    } else if magnitude_a >= magnitude_b {
        let steps: u32 = magnitude_a - magnitude_b;
        UlpComparisonResult::Difference(steps as u64)
    } else {
        let steps: u32 = magnitude_b - magnitude_a;
        UlpComparisonResult::Difference(steps as u64)
    }
}

impl Ulp for Binary64 {
    open spec fn ulp_difference(a: Self, b: Self) -> UlpComparisonResult {
        ulp_difference64(a.bits, b.bits)
    }

    fn ulp_diff(a: &Self, b: &Self) -> (r: UlpComparisonResult) {
        ulp_diff_binary64(a.bits, b.bits)
    }
}

impl Ulp for Binary32 {
    open spec fn ulp_difference(a: Self, b: Self) -> UlpComparisonResult {
        ulp_difference32(a.bits, b.bits)
    }

    fn ulp_diff(a: &Self, b: &Self) -> (r: UlpComparisonResult) {
        ulp_diff_binary32(a.bits, b.bits)
    }
}

/// The distance does not depend on the order of the two numbers.
pub proof fn ulp_difference64_is_symmetric(a: u64, b: u64)
    ensures
        ulp_difference64(a, b) == ulp_difference64(b, a),
{
}

/// The distance does not depend on the order of the two numbers.
pub proof fn ulp_difference32_is_symmetric(a: u32, b: u32)
    ensures
        ulp_difference32(a, b) == ulp_difference32(b, a),
{
}

/// A number and the next greater magnitude of the same sign are one step apart.
pub proof fn neighbours_are_one_step_apart(a: u64)
    requires
        magnitude64(a) < 0x7ff0_0000_0000_0000,
    ensures
        ulp_difference64(a, (a + 1) as u64) == UlpComparisonResult::Difference(1),
{
}

} // verus!
