//! Sum, quarter and complement of small non-negative doubles, each rounded once
//! to the nearest double, ties to even.
//!
//! The operands are the doubles from zero up to four, and `-0.0`. A sum of two
//! negative zeros is `-0.0`, and so is a quarter of `-0.0`; every other result is
//! the double nearest to the exact result.

use vstd::prelude::*;
use vstd::arithmetic::power2::{lemma2_to64, lemma_pow2_adds, lemma_pow2_pos, pow2};
use crate::rounding::{
    lemma_bracket, lemma_encode, lemma_encode_quarters, lemma_nearest_unique, lemma_pow2_120,
    lemma_pow2_increases, nearest_even, power_of_two, round_to_nearest,
};
use crate::scalar::{
    lemma_magnitude_increases, lemma_unit_interval_bits, lemma_zero_magnitude, magnitude, scale,
    significand, unit_interval, Scalar, HIDDEN_BIT, NEG_ZERO_BITS, ONE_BITS,
};

verus! {

/// Bit pattern of `4.0`, the largest operand.
pub const FOUR_BITS: u64 = 0x4010_0000_0000_0000;

/// A double from zero up to four, or `-0.0`.
pub open spec fn small(bits: u64) -> bool {
    bits <= FOUR_BITS || bits == NEG_ZERO_BITS
}

/// The double nearest to a target in quarter units, ties to even.
pub open spec fn rounded(quarters: nat) -> u64 {
    choose|r: u64| nearest_even(r, quarters)
}

/// The sum of two small doubles.
pub open spec fn spec_sum(a: u64, b: u64) -> u64 {
    if a == NEG_ZERO_BITS && b == NEG_ZERO_BITS {
        NEG_ZERO_BITS
    } else {
        rounded(4 * (magnitude(a) + magnitude(b)))
    }
}

/// A small double divided by four.
pub open spec fn spec_quarter(a: u64) -> u64 {
    if a == NEG_ZERO_BITS {
        NEG_ZERO_BITS
    } else {
        rounded(magnitude(a))
    }
}

/// One minus a double of the unit interval.
pub open spec fn spec_complement(a: u64) -> u64 {
    rounded((4 * (magnitude(ONE_BITS) - magnitude(a))) as nat)
}

/// A pattern is its scale times two to the fifty-second plus its significand, and the
/// next pattern denotes one unit of that scale more.
pub proof fn lemma_decompose(bits: u64)
    requires
        bits <= FOUR_BITS,
    ensures
        bits == scale(bits) * HIDDEN_BIT + significand(bits),
        significand(bits) < 2 * HIDDEN_BIT,
        scale(bits) == 0 || significand(bits) >= HIDDEN_BIT,
        scale(bits) <= 1024,
        magnitude((bits + 1) as u64) == magnitude(bits) + pow2(scale(bits)),
{
    let p = scale(bits);
    let sig = significand(bits);
    lemma_encode(p, sig + 1);
    assert((sig + 1) * pow2(p) == sig * pow2(p) + pow2(p)) by (nonlinear_arith);
}

/// The significand and the scale of a finite non-negative double.
fn decompose(bits: u64) -> (parts: (u64, u32))
    requires
        bits <= FOUR_BITS,
    ensures
        parts.0 == significand(bits),
        parts.1 == scale(bits),
        parts.0 < 2 * HIDDEN_BIT,
        parts.1 <= 1024,
{
    let e: u64 = bits / HIDDEN_BIT;
    let f: u64 = bits % HIDDEN_BIT;
    if e == 0 {
        (f, 0)
    } else {
        (HIDDEN_BIT + f, (e - 1) as u32)
    }
}

/// The pattern of a small double with the sign of `-0.0` dropped.
fn without_sign(x: Scalar) -> (bits: u64)
    requires
        small(x.bits),
    ensures
        bits <= FOUR_BITS,
        magnitude(bits) == magnitude(x.bits),
        x.bits != NEG_ZERO_BITS ==> bits == x.bits,
        x.bits == NEG_ZERO_BITS ==> bits == 0,
{
    proof {
        lemma_zero_magnitude(x.bits);
        lemma_zero_magnitude(0);
    }
    if x.bits == NEG_ZERO_BITS {
        0
    } else {
        x.bits
    }
}

/// The sum of two small doubles, rounded to the nearest double.
pub fn sum(a: Scalar, b: Scalar) -> (r: Scalar)
    requires
        small(a.bits),
        small(b.bits),
    ensures
        r.bits == spec_sum(a.bits, b.bits),
        r.bits == NEG_ZERO_BITS || nearest_even(
            r.bits,
            4 * (magnitude(a.bits) + magnitude(b.bits)),
        ),
{
    if a.bits == NEG_ZERO_BITS && b.bits == NEG_ZERO_BITS {
        return Scalar { bits: NEG_ZERO_BITS };
    }
    let x: u64 = without_sign(a);
    let y: u64 = without_sign(b);
    let hi: u64 = if x >= y { x } else { y };
    let lo: u64 = if x >= y { y } else { x };
    let (sh, ph) = decompose(hi);
    let (sl, pl) = decompose(lo);
    let ghost target: nat = 4 * (magnitude(a.bits) + magnitude(b.bits));
    proof {
        lemma_decompose(hi);
        lemma_decompose(lo);
        lemma_encode_quarters(ph as nat, sh as nat);
        lemma_encode_quarters(pl as nat, sl as nat);
        lemma_pow2_120();
        assert(target == sh * pow2((ph + 2) as nat) + sl * pow2((pl + 2) as nat));
    }
    let r: u64 = if ph - pl <= 64 {
        let d: u32 = ph - pl;
        let factor: u128 = power_of_two(d);
        proof {
            lemma_pow2_increases(d as nat, 64);
            lemma2_to64();
            assert(sh * factor < 0x20_0000_0000_0000 * 0x1_0000_0000_0000_0000)
                by (nonlinear_arith)
                requires
                    sh < 0x20_0000_0000_0000u64,
                    0 < factor <= 0x1_0000_0000_0000_0000u128,
            ;
            lemma_pow2_adds(d as nat, (pl + 2) as nat);
            assert((sh * factor + sl) * pow2((pl + 2) as nat) == sh * (factor * pow2(
                (pl + 2) as nat,
            )) + sl * pow2((pl + 2) as nat)) by (nonlinear_arith);
        }
        let t: u128 = (sh as u128) * factor + (sl as u128);
        round_to_nearest(t, pl + 2)
    } else {
        proof {
            // the smaller operand is less than half a step of the larger one
            lemma_pow2_120();
            lemma_pow2_pos((pl + 2) as nat);
            lemma_pow2_adds(53, (pl + 2) as nat);
            lemma_pow2_increases((pl + 55) as nat, ph as nat);
            lemma_pow2_adds(ph as nat, 2);
            lemma2_to64();
            assert(sl * pow2((pl + 2) as nat) < pow2(53) * pow2((pl + 2) as nat))
                by (nonlinear_arith)
                requires
                    sl < pow2(53),
                    pow2((pl + 2) as nat) > 0,
            ;
            assert(4 * magnitude((hi + 1) as u64) == 4 * magnitude(hi) + pow2((ph + 2) as nat));
            lemma_bracket(hi, hi, target);
        }
        hi
    };
    proof {
        lemma_nearest_unique(r, rounded(target), target);
    }
    Scalar { bits: r }
}

/// A small double divided by four, rounded to the nearest double.
pub fn quarter(a: Scalar) -> (r: Scalar)
    requires
        small(a.bits),
    ensures
        r.bits == spec_quarter(a.bits),
        r.bits == NEG_ZERO_BITS || nearest_even(r.bits, magnitude(a.bits)),
{
    if a.bits == NEG_ZERO_BITS {
        return Scalar { bits: NEG_ZERO_BITS };
    }
    let (s, p) = decompose(a.bits);
    proof {
        lemma_pow2_120();
    }
    let r: u64 = round_to_nearest(s as u128, p);
    proof {
        lemma_nearest_unique(r, rounded(magnitude(a.bits)), magnitude(a.bits));
    }
    Scalar { bits: r }
}

/// One minus a double of the unit interval, rounded to the nearest double.
pub fn complement(a: Scalar) -> (r: Scalar)
    requires
        unit_interval(a.bits),
    ensures
        r.bits == spec_complement(a.bits),
        nearest_even(r.bits, (4 * (magnitude(ONE_BITS) - magnitude(a.bits))) as nat),
{
    proof {
        lemma_unit_interval_bits(a.bits);
    }
    let x: u64 = without_sign(a);
    let (s, p) = decompose(x);
    let ghost target: nat = (4 * (magnitude(ONE_BITS) - magnitude(a.bits))) as nat;
    proof {
        if x < ONE_BITS {
            lemma_magnitude_increases(x, ONE_BITS);
        }
        lemma_decompose(x);
        lemma_decompose(ONE_BITS);
        lemma_encode_quarters(p as nat, s as nat);
        lemma_encode_quarters(1022, HIDDEN_BIT as nat);
        assert(scale(ONE_BITS) == 1022 && significand(ONE_BITS) == HIDDEN_BIT);
        lemma_pow2_120();
        lemma2_to64();
        lemma_pow2_pos((p + 2) as nat);
        assert(target == HIDDEN_BIT * pow2(1024) - s * pow2((p + 2) as nat));
        assert(x / HIDDEN_BIT <= 1023);
        assert(p <= 1022);
    }
    let r: u64 = if 1022 - p <= 64 {
        let d: u32 = 1022 - p;
        let factor: u128 = power_of_two(d);
        proof {
            lemma_pow2_increases(d as nat, 64);
            lemma_pow2_adds(d as nat, (p + 2) as nat);
            assert(HIDDEN_BIT * factor <= 0x10_0000_0000_0000 * 0x1_0000_0000_0000_0000)
                by (nonlinear_arith)
                requires
                    0 < factor <= 0x1_0000_0000_0000_0000u128,
            ;
            assert(HIDDEN_BIT * (factor * pow2((p + 2) as nat)) == (HIDDEN_BIT * factor) * pow2(
                (p + 2) as nat,
            )) by (nonlinear_arith);
            // the operand is at most one, so its significand is at most the shifted one
            assert(s <= HIDDEN_BIT * factor) by (nonlinear_arith)
                requires
                    s * pow2((p + 2) as nat) <= (HIDDEN_BIT * factor) * pow2((p + 2) as nat),
                    pow2((p + 2) as nat) > 0,
            ;
            assert((HIDDEN_BIT * factor - s) * pow2((p + 2) as nat) == (HIDDEN_BIT * factor)
                * pow2((p + 2) as nat) - s * pow2((p + 2) as nat)) by (nonlinear_arith);
        }
        let t: u128 = (HIDDEN_BIT as u128) * factor - (s as u128);
        round_to_nearest(t, p + 2)
    } else {
        proof {
            // the operand is less than half the step below one
            let below: u64 = (ONE_BITS - 1) as u64;
            lemma_decompose(below);
            assert(scale(below) == 1021);
            lemma_pow2_adds(1021, 2);
            lemma_pow2_adds(53, (p + 2) as nat);
            lemma_pow2_increases((p + 55) as nat, 1022);
            vstd::arithmetic::power2::lemma_pow2_unfold(1023);
            assert(s * pow2((p + 2) as nat) < pow2(53) * pow2((p + 2) as nat)) by (nonlinear_arith)
                requires
                    s < pow2(53),
                    pow2((p + 2) as nat) > 0,
            ;
            assert(4 * magnitude(ONE_BITS) == 4 * magnitude(below) + pow2(1023));
            lemma_bracket(below, ONE_BITS, target);
        }
        ONE_BITS
    };
    proof {
        lemma_nearest_unique(r, rounded(target), target);
    }
    Scalar { bits: r }
}

} // verus!
