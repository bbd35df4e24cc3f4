//! The hybrid tolerance.
//!
//! Two values agree when their distance is at most the larger of an absolute
//! bound and a bound relative to the reference value. Subtraction,
//! multiplication and division of doubles are not done here: the caller hands
//! in their results, and the decision is made on the bits.

use crate::double;
use vstd::prelude::*;

verus! {

/// The bit pattern of `1e-12`, the absolute bound.
pub const ABS_TOLERANCE: u64 = 0x3D71_9799_812D_EA11;

/// The bit pattern of `1e-9`, the bound relative to the reference value.
pub const REL_TOLERANCE: u64 = 0x3E11_2E0B_E826_D695;

/// What arithmetic says of a value `a` and a reference value `b`.
#[derive(Debug, Clone, Copy, PartialEq, Eq, Structural)]
pub struct Deviation {
    /// `|a - b|`
    pub abs_diff: u64,
    /// `|b| * REL_TOLERANCE`
    pub scaled_rel: u64,
    /// `|a - b| / |b|`
    pub rel_diff: u64,
    /// `|a - b| / |b| * 100`
    pub percent: u64,
    /// `|a - b| * 100`
    pub abs_percent: u64,
}

/// Which of the two rules for undefined values is applied first.
#[derive(Debug, Clone, Copy, PartialEq, Eq, Structural)]
pub enum Precedence {
    /// A reference value that is not finite ends the check at once.
    SkipFirst,
    /// A NaN on one side only is a failure, whatever the reference value is.
    NanFirst,
}

/// The verdict on one pair of values.
#[derive(Debug, Clone, Copy, PartialEq, Eq, Structural)]
pub enum ToleranceOutcome {
    Pass,
    Fail {
        value: u64,
        reference: u64,
        abs_diff: u64,
        rel_diff: u64,
        /// `rel_diff` in percent, at most 100.
        percent: u64,
        /// The bound that `abs_diff` exceeds.
        threshold: u64,
    },
}

/// The two bounds of a check: the absolute one, and the one relative to the
/// reference value, by which the caller has scaled the reference already.
#[derive(Debug, Clone, Copy, PartialEq, Eq, Structural)]
pub struct Bounds {
    pub abs_tolerance: u64,
    pub rel_tolerance: u64,
}

/// The bounds that every oracle uses: `1e-12` and `1e-9`.
pub open spec fn canonical_bounds() -> Bounds {
    Bounds { abs_tolerance: ABS_TOLERANCE, rel_tolerance: REL_TOLERANCE }
}

/// The bound on the distance: the larger of the absolute bound and the scaled
/// relative one.
pub open spec fn spec_threshold(abs_tolerance: u64, scaled_rel: u64) -> u64 {
    double::spec_max(abs_tolerance, scaled_rel)
}

/// Whether exactly one of the two values is a NaN.
pub open spec fn nan_mismatch(value: u64, reference: u64) -> bool {
    double::spec_is_nan(value) != double::spec_is_nan(reference)
}

/// Whether the pair fails.
///
/// A pair with a NaN on one side only fails, and a pair whose reference value is
/// not finite is not judged; `precedence` says which of the two holds where both
/// apply. Otherwise the pair fails where the distance exceeds the bound.
pub open spec fn fails(
    value: u64,
    reference: u64,
    dev: Deviation,
    abs_tolerance: u64,
    precedence: Precedence,
) -> bool {
    if precedence == Precedence::NanFirst && nan_mismatch(value, reference) {
        true
    } else if !double::spec_is_finite(reference) {
        false
    } else if double::spec_is_nan(value) {
        true
    } else {
        double::spec_lt(spec_threshold(abs_tolerance, dev.scaled_rel), dev.abs_diff)
    }
}

/// The verdict on a pair, with the figures of a failure.
pub open spec fn spec_hybrid_check(
    value: u64,
    reference: u64,
    dev: Deviation,
    abs_tolerance: u64,
    precedence: Precedence,
) -> ToleranceOutcome {
    if fails(value, reference, dev, abs_tolerance, precedence) {
        ToleranceOutcome::Fail {
            value,
            reference,
            abs_diff: dev.abs_diff,
            rel_diff: dev.rel_diff,
            percent: double::spec_min(dev.percent, double::HUNDRED),
            threshold: spec_threshold(abs_tolerance, dev.scaled_rel),
        }
    } else {
        ToleranceOutcome::Pass
    }
}

/// The bound on the distance for a reference value whose scaled relative bound
/// is `scaled_rel`.
pub fn threshold(abs_tolerance: u64, scaled_rel: u64) -> (t: u64)
    ensures
        t == spec_threshold(abs_tolerance, scaled_rel),
{
    double::max(abs_tolerance, scaled_rel)
}

/// The bounds that every oracle uses.
pub fn bounds() -> (b: Bounds)
    ensures
        b == canonical_bounds(),
{
    Bounds { abs_tolerance: ABS_TOLERANCE, rel_tolerance: REL_TOLERANCE }
}

/// Judges one pair of values.
pub fn hybrid_check(
    value: u64,
    reference: u64,
    dev: &Deviation,
    abs_tolerance: u64,
    precedence: Precedence,
) -> (r: ToleranceOutcome)
    ensures
        r == spec_hybrid_check(value, reference, *dev, abs_tolerance, precedence),
{
    let nan_first = match precedence {
        Precedence::NanFirst => true,
        Precedence::SkipFirst => false,
    };
    let failed = if nan_first && double::is_nan(value) != double::is_nan(reference) {
        true
    } else if !double::is_finite(reference) {
        false
    } else if double::is_nan(value) {
        true
    } else {
        double::lt(threshold(abs_tolerance, dev.scaled_rel), dev.abs_diff)
    };
    if failed {
        ToleranceOutcome::Fail {
            value,
            reference,
            abs_diff: dev.abs_diff,
            rel_diff: dev.rel_diff,
            percent: double::min(dev.percent, double::HUNDRED),
            threshold: threshold(abs_tolerance, dev.scaled_rel),
        }
    } else {
        ToleranceOutcome::Pass
    }
}

/// Against the reference value zero the bound is the absolute one: a value that
/// is not a NaN fails exactly where its distance exceeds `1e-12`.
pub proof fn zero_reference_uses_absolute_bound(value: u64, dev: Deviation, precedence: Precedence)
    requires
        !double::spec_is_nan(value),
        dev.scaled_rel == double::ZERO,
    ensures
        spec_threshold(ABS_TOLERANCE, dev.scaled_rel) == ABS_TOLERANCE,
        fails(value, double::ZERO, dev, ABS_TOLERANCE, precedence) == double::spec_lt(
            ABS_TOLERANCE,
            dev.abs_diff,
        ),
{
}

/// Where the scaled relative bound is above the absolute one, it is the bound:
/// a distance between the two does not fail.
pub proof fn large_reference_uses_relative_bound(
    value: u64,
    reference: u64,
    dev: Deviation,
    precedence: Precedence,
)
    requires
        !double::spec_is_nan(value),
        double::spec_is_finite(reference),
        double::spec_lt(ABS_TOLERANCE, dev.scaled_rel),
    ensures
        spec_threshold(ABS_TOLERANCE, dev.scaled_rel) == dev.scaled_rel,
        fails(value, reference, dev, ABS_TOLERANCE, precedence) == double::spec_lt(
            dev.scaled_rel,
            dev.abs_diff,
        ),
{
}

} // verus!
