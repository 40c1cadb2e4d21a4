//! Placeholder aggregation of the four function values into the two scores.
//!
//! The stability score is the arithmetic mean of the four values, taken as the
//! running sum from left to right divided by four; the risk score is one minus
//! the stability score. Each step rounds to the nearest double. These formulas
//! stand in for a real evaluation and carry no meaning beyond filling the fields.

use vstd::prelude::*;
use crate::arith::{
    complement, quarter, small, spec_complement, spec_quarter, spec_sum, sum, FOUR_BITS,
};
use crate::rounding::{lemma_encode, lemma_nearest_bounds};
use crate::scalar::{
    lemma_magnitude_increases, lemma_unit_interval_bits, lemma_zero_magnitude, magnitude,
    unit_interval, Scalar, HIDDEN_BIT, NEG_ZERO_BITS, ONE_BITS,
};
use crate::schema::Functions;

verus! {

/// Bit pattern of `2.0`.
pub const TWO_BITS: u64 = 0x4000_0000_0000_0000;

/// Bit pattern of `3.0`.
pub const THREE_BITS: u64 = 0x4008_0000_0000_0000;

/// The mean of the four function values.
pub open spec fn spec_stability_score(f: Functions) -> Scalar {
    Scalar {
        bits: spec_quarter(
            spec_sum(
                spec_sum(spec_sum(f.baseline.bits, f.norm.bits), f.stability.bits),
                f.meta_control.bits,
            ),
        ),
    }
}

/// One minus the stability score.
pub open spec fn spec_risk_score(stability_score: Scalar) -> Scalar {
    Scalar { bits: spec_complement(stability_score.bits) }
}

/// Two, three and four denote twice, three times and four times what one denotes.
pub proof fn lemma_whole_numbers()
    ensures
        magnitude(TWO_BITS) == 2 * magnitude(ONE_BITS),
        magnitude(THREE_BITS) == 3 * magnitude(ONE_BITS),
        magnitude(FOUR_BITS) == 4 * magnitude(ONE_BITS),
{
    let h = HIDDEN_BIT as nat;
    lemma_encode(1022, h);
    lemma_encode(1023, h);
    lemma_encode(1023, h + h / 2);
    lemma_encode(1024, h);
    vstd::arithmetic::power2::lemma_pow2_unfold(1023);
    vstd::arithmetic::power2::lemma_pow2_unfold(1024);
    let unit = vstd::arithmetic::power2::pow2(1022);
    assert(h * (2 * unit) == 2 * (h * unit)) by (nonlinear_arith);
    assert((h + h / 2) * (2 * unit) == 3 * (h * unit)) by (nonlinear_arith)
        requires
            h == 2 * (h / 2),
    ;
    assert(h * (2 * (2 * unit)) == 4 * (h * unit)) by (nonlinear_arith);
}

/// A double of the unit interval denotes at most what one denotes.
pub proof fn lemma_magnitude_bounded(bits: u64)
    requires
        unit_interval(bits),
    ensures
        magnitude(bits) <= magnitude(ONE_BITS),
        small(bits),
{
    lemma_unit_interval_bits(bits);
    lemma_zero_magnitude(bits);
    if bits < ONE_BITS {
        lemma_magnitude_increases(bits, ONE_BITS);
    }
}

/// The stability score of four function values in `[0, 1]`: their mean.
pub fn demo_stability_score(f: &Functions) -> (score: Scalar)
    requires
        f.spec_in_range(),
    ensures
        score == spec_stability_score(*f),
        score.spec_in_unit_interval(),
{
    proof {
        lemma_whole_numbers();
        lemma_unit_interval_bits(f.baseline.bits);
        lemma_unit_interval_bits(f.norm.bits);
        lemma_unit_interval_bits(f.stability.bits);
        lemma_unit_interval_bits(f.meta_control.bits);
        lemma_zero_magnitude(f.baseline.bits);
        lemma_zero_magnitude(f.norm.bits);
        lemma_zero_magnitude(f.stability.bits);
        lemma_zero_magnitude(f.meta_control.bits);
        lemma_zero_magnitude(NEG_ZERO_BITS);
        lemma_magnitude_bounded(f.baseline.bits);
        lemma_magnitude_bounded(f.norm.bits);
        lemma_magnitude_bounded(f.stability.bits);
        lemma_magnitude_bounded(f.meta_control.bits);
    }
    let two = sum(f.baseline, f.norm);
    proof {
        if two.bits != NEG_ZERO_BITS {
            lemma_nearest_bounds(
                two.bits,
                4 * (magnitude(f.baseline.bits) + magnitude(f.norm.bits)),
                TWO_BITS,
            );
            if two.bits < TWO_BITS {
                lemma_magnitude_increases(two.bits, TWO_BITS);
            }
        }
    }
    let three = sum(two, f.stability);
    proof {
        if three.bits != NEG_ZERO_BITS {
            lemma_nearest_bounds(
                three.bits,
                4 * (magnitude(two.bits) + magnitude(f.stability.bits)),
                THREE_BITS,
            );
            if three.bits < THREE_BITS {
                lemma_magnitude_increases(three.bits, THREE_BITS);
            }
        }
    }
    let four = sum(three, f.meta_control);
    proof {
        if four.bits != NEG_ZERO_BITS {
            lemma_nearest_bounds(
                four.bits,
                4 * (magnitude(three.bits) + magnitude(f.meta_control.bits)),
                FOUR_BITS,
            );
            if four.bits < FOUR_BITS {
                lemma_magnitude_increases(four.bits, FOUR_BITS);
            }
        }
    }
    let score = quarter(four);
    proof {
        if score.bits != NEG_ZERO_BITS {
            lemma_nearest_bounds(score.bits, magnitude(four.bits), ONE_BITS);
        }
        lemma_unit_interval_bits(score.bits);
    }
    score
}

/// The risk score that goes with a stability score in `[0, 1]`: one minus it.
pub fn demo_risk_score(stability_score: Scalar) -> (score: Scalar)
    requires
        stability_score.spec_in_unit_interval(),
    ensures
        score == spec_risk_score(stability_score),
        score.spec_in_unit_interval(),
{
    let score = complement(stability_score);
    proof {
        lemma_unit_interval_bits(stability_score.bits);
        lemma_zero_magnitude(stability_score.bits);
        lemma_nearest_bounds(
            score.bits,
            (4 * (magnitude(ONE_BITS) - magnitude(stability_score.bits))) as nat,
            ONE_BITS,
        );
        lemma_unit_interval_bits(score.bits);
    }
    score
}

} // verus!
