//! Confidence levels as fixed-point integers.
//!
//! A confidence is an integer on a scale where [`NO_CONFIDENCE`] stands for
//! "no confidence at all" and [`FULL_CONFIDENCE`] for "certain". Comparisons
//! between confidences are plain integer comparisons.

use vstd::prelude::*;

verus! {

/// A confidence level; `FULL_CONFIDENCE` means certainty.
pub type Confidence = i32;

/// The lowest confidence a clamped value can take.
pub const NO_CONFIDENCE: Confidence = 0;

/// Certainty: the highest confidence a clamped value can take.
pub const FULL_CONFIDENCE: Confidence = 10000;

/// `c` restricted to the closed range from `NO_CONFIDENCE` to `FULL_CONFIDENCE`.
pub open spec fn clamped(c: int) -> int {
    if c < NO_CONFIDENCE {
        NO_CONFIDENCE as int
    } else if c > FULL_CONFIDENCE {
        FULL_CONFIDENCE as int
    } else {
        c
    }
}

/// Whether `c` lies in the closed range from `NO_CONFIDENCE` to `FULL_CONFIDENCE`.
pub open spec fn in_range(c: int) -> bool {
    NO_CONFIDENCE <= c <= FULL_CONFIDENCE
}

/// Restricts a confidence to the range from `NO_CONFIDENCE` to `FULL_CONFIDENCE`.
pub fn clamp_confidence(c: Confidence) -> (r: Confidence)
    ensures
        r == clamped(c as int),
{
    if c < NO_CONFIDENCE {
        NO_CONFIDENCE
    } else if c > FULL_CONFIDENCE {
        FULL_CONFIDENCE
    } else {
        c
    }
}

/// Clamping always yields a value in range.
pub proof fn clamp_lands_in_range(c: int)
    ensures
        in_range(clamped(c)),
{
}

/// Clamping leaves a value that is already in range unchanged, so clamping twice
/// is the same as clamping once.
pub proof fn clamp_keeps_values_in_range(c: int)
    ensures
        in_range(c) ==> clamped(c) == c,
        clamped(clamped(c)) == clamped(c),
{
}

/// Clamping preserves the order of confidences.
pub proof fn clamp_is_monotone(a: int, b: int)
    requires
        a <= b,
    ensures
        clamped(a) <= clamped(b),
{
}

} // verus!
