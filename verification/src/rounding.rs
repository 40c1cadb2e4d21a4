//! Rounding to the nearest double, ties to the even pattern.
//!
//! A target is an exact non-negative number, counted in quarters of the unit of
//! `magnitude`, so that a quarter of a double is still a whole number. The double
//! nearest to a target is the finite non-negative pattern whose value lies
//! closest to it; of two that lie equally close, the one whose last bit is zero.

use vstd::prelude::*;
use vstd::arithmetic::power2::{
    lemma2_to64, lemma_pow2_adds, lemma_pow2_pos, lemma_pow2_unfold, pow2,
};
use crate::scalar::{
    lemma_magnitude_increases, magnitude, scale, significand, HIDDEN_BIT, INFINITY_BITS,
};

verus! {

/// How far the value of `bits` lies from the target, in quarter units.
pub open spec fn distance(bits: u64, quarters: nat) -> nat {
    let m = 4 * magnitude(bits);
    if m >= quarters {
        (m - quarters) as nat
    } else {
        (quarters - m) as nat
    }
}

/// `bits` is the double nearest to the target, ties to even.
pub open spec fn nearest_even(bits: u64, quarters: nat) -> bool {
    &&& bits < INFINITY_BITS
    &&& forall|b: u64|
        b < INFINITY_BITS ==> distance(bits, quarters) <= #[trigger] distance(b, quarters)
    &&& forall|b: u64|
        b < INFINITY_BITS && b != bits && #[trigger] distance(b, quarters) == distance(
            bits,
            quarters,
        ) ==> bits % 2 == 0
}

/// The pattern made of a scale and a significand denotes their product.
pub proof fn lemma_encode(p: nat, sig: nat)
    requires
        p <= 2044,
        sig <= 2 * HIDDEN_BIT,
        p == 0 || sig >= HIDDEN_BIT,
    ensures
        p * HIDDEN_BIT + sig < INFINITY_BITS,
        magnitude((p * HIDDEN_BIT + sig) as u64) == sig * pow2(p),
{
    let b = (p * HIDDEN_BIT + sig) as u64;
    assert(p * HIDDEN_BIT + sig < INFINITY_BITS);
    if sig < HIDDEN_BIT {
        assert(b == sig);
        assert(significand(b) == sig);
        assert(scale(b) == 0);
    } else if sig < 2 * HIDDEN_BIT {
        assert(b / HIDDEN_BIT == p + 1);
        assert(b % HIDDEN_BIT == sig - HIDDEN_BIT);
        assert(significand(b) == sig);
        assert(scale(b) == p);
    } else {
        assert(b / HIDDEN_BIT == p + 2);
        assert(b % HIDDEN_BIT == 0);
        assert(significand(b) == HIDDEN_BIT);
        assert(scale(b) == p + 1);
        lemma_pow2_unfold(p + 1);
        assert(HIDDEN_BIT * (2 * pow2(p)) == (2 * HIDDEN_BIT) * pow2(p)) by (nonlinear_arith);
    }
}

/// A target between two neighbouring doubles is nearest to the closer one; where it lies
/// midway, to the even one.
pub proof fn lemma_bracket(lo: u64, r: u64, quarters: nat)
    requires
        lo + 1 < INFINITY_BITS,
        4 * magnitude(lo) <= quarters <= 4 * magnitude((lo + 1) as u64),
        r == lo || r == lo + 1,
        distance(r, quarters) <= distance(lo, quarters),
        distance(r, quarters) <= distance((lo + 1) as u64, quarters),
        distance(lo, quarters) == distance((lo + 1) as u64, quarters) ==> r % 2 == 0,
    ensures
        nearest_even(r, quarters),
{
    let hi = (lo + 1) as u64;
    assert forall|b: u64| b < INFINITY_BITS implies distance(r, quarters) <= #[trigger] distance(
        b,
        quarters,
    ) && (b != r && distance(b, quarters) == distance(r, quarters) ==> r % 2 == 0) by {
        if b < lo {
            lemma_magnitude_increases(b, lo);
        } else if b > hi {
            lemma_magnitude_increases(hi, b);
        }
    }
}

/// A target has one nearest double.
pub proof fn lemma_nearest_unique(a: u64, b: u64, quarters: nat)
    requires
        nearest_even(a, quarters),
        nearest_even(b, quarters),
    ensures
        a == b,
{
    if a != b {
        let lo = if a < b { a } else { b };
        let hi = if a < b { b } else { a };
        assert(distance(a, quarters) == distance(b, quarters));
        assert(lo % 2 == 0 && hi % 2 == 0);
        lemma_magnitude_increases(lo, hi);
        let mid = (lo + 1) as u64;
        assert(mid < hi);
        lemma_magnitude_increases(lo, mid);
        lemma_magnitude_increases(mid, hi);
        assert(distance(mid, quarters) < distance(lo, quarters));
    }
}

/// Rounding keeps order: the nearest double to a target lies on the same side of any double
/// as the target does.
pub proof fn lemma_nearest_bounds(r: u64, quarters: nat, c: u64)
    requires
        nearest_even(r, quarters),
        c < INFINITY_BITS,
    ensures
        quarters <= 4 * magnitude(c) ==> r <= c,
        quarters >= 4 * magnitude(c) ==> r >= c,
{
    assert(distance(r, quarters) <= distance(c, quarters));
    if r > c {
        lemma_magnitude_increases(c, r);
    }
    if r < c {
        lemma_magnitude_increases(r, c);
    }
}

/// Two to the hundred-and-twentieth, written out.
pub proof fn lemma_pow2_120()
    ensures
        pow2(120) == 0x1_0000_0000_0000_0000_0000_0000_0000_00u128,
        pow2(52) == HIDDEN_BIT,
        pow2(53) == 2 * HIDDEN_BIT,
{
    lemma2_to64();
    vstd::arithmetic::power2::lemma2_to64_rest();
    lemma_pow2_adds(60, 60);
}

/// Powers of two rise with the exponent.
pub proof fn lemma_pow2_increases(a: nat, b: nat)
    requires
        a <= b,
    ensures
        pow2(a) <= pow2(b),
        pow2(a) > 0,
{
    lemma_pow2_pos(a);
    if a < b {
        vstd::arithmetic::power2::lemma_pow2_strictly_increases(a, b);
    }
}

/// In quarter units, the pattern made of a scale and a significand denotes the significand
/// times two to the scale plus two.
pub proof fn lemma_encode_quarters(p: nat, sig: nat)
    requires
        p <= 2044,
        sig <= 2 * HIDDEN_BIT,
        p == 0 || sig >= HIDDEN_BIT,
    ensures
        p * HIDDEN_BIT + sig < INFINITY_BITS,
        4 * magnitude((p * HIDDEN_BIT + sig) as u64) == sig * pow2(p + 2),
{
    lemma_encode(p, sig);
    lemma_pow2_adds(p, 2);
    lemma2_to64();
    assert(4 * (sig * pow2(p)) == sig * (pow2(p) * 4)) by (nonlinear_arith);
}

/// Two to the `n`, for exponents that keep the power within 128 bits.
pub fn power_of_two(n: u32) -> (r: u128)
    requires
        n <= 120,
    ensures
        r == pow2(n as nat),
{
    let mut r: u128 = 1;
    let mut i: u32 = 0;
    proof {
        lemma2_to64();
    }
    while i < n
        invariant
            i <= n <= 120,
            r == pow2(i as nat),
        decreases n - i,
    {
        proof {
            lemma_pow2_unfold((i + 1) as nat);
            lemma_pow2_increases((i + 1) as nat, 120);
            lemma_pow2_120();
        }
        r = r * 2;
        i += 1;
    }
    r
}

/// The number of bits of `t`: the least `len` with `t` below two to the `len`.
fn bit_length(t: u128) -> (len: u32)
    requires
        t < pow2(120),
    ensures
        len <= 120,
        t < pow2(len as nat),
        len > 0 ==> pow2((len - 1) as nat) <= t,
{
    let mut len: u32 = 0;
    let mut bound: u128 = 1;
    proof {
        lemma2_to64();
    }
    while bound <= t
        invariant
            len <= 120,
            bound == pow2(len as nat),
            t < pow2(120),
            len > 0 ==> pow2((len - 1) as nat) <= t,
        decreases 120 - len,
    {
        proof {
            if len >= 120 {
                lemma_pow2_increases(120, len as nat);
            }
            lemma_pow2_unfold((len + 1) as nat);
            lemma_pow2_120();
        }
        bound = bound * 2;
        len += 1;
    }
    len
}

/// A target that a double denotes exactly is nearest to that double.
pub proof fn lemma_exact_is_nearest(r: u64, quarters: nat)
    requires
        r + 1 < INFINITY_BITS,
        quarters == 4 * magnitude(r),
    ensures
        nearest_even(r, quarters),
{
    lemma_magnitude_increases(r, (r + 1) as u64);
    lemma_bracket(r, r, quarters);
}

/// The double nearest to `t` times two to the `e`, in quarter units; ties go to even.
pub fn round_to_nearest(t: u128, e: u32) -> (r: u64)
    requires
        t < pow2(120),
        e <= 1400,
    ensures
        nearest_even(r, t as nat * pow2(e as nat)),
        r + 1 < INFINITY_BITS,
{
    let ghost target: nat = t as nat * pow2(e as nat);
    if t == 0 {
        proof {
            assert(0 * pow2(e as nat) == 0) by (nonlinear_arith);
            lemma_encode_quarters(0, 0);
            assert(0 * pow2(2) == 0) by (nonlinear_arith);
            lemma_exact_is_nearest(0, target);
        }
        return 0;
    }
    let len: u32 = bit_length(t);
    let p: u32 = if len + e <= 55 { 0 } else { len + e - 55 };
    proof {
        lemma_pow2_120();
        lemma_pow2_pos(e as nat);
        lemma2_to64();
        assert(len > 0);
    }
    if p + 2 <= e {
        let m: u32 = e - (p + 2);
        let factor: u128 = power_of_two(m);
        proof {
            lemma_pow2_pos(m as nat);
            // t < 2^len and len + m <= 53
            lemma_pow2_adds(len as nat, m as nat);
            lemma_pow2_increases((len + m) as nat, 53);
            assert(t * factor < pow2(len as nat) * factor) by (nonlinear_arith)
                requires
                    t < pow2(len as nat),
                    factor > 0,
            ;
        }
        let sig: u128 = t * factor;
        proof {
            if p > 0 {
                // len + m == 53, so the leading bit lands on the hidden bit
                lemma_pow2_adds((len - 1) as nat, m as nat);
                assert(pow2((len - 1) as nat) * factor <= t * factor) by (nonlinear_arith)
                    requires
                        pow2((len - 1) as nat) <= t,
                        factor > 0,
                ;
            }
            lemma_encode_quarters(p as nat, sig as nat);
            lemma_pow2_adds(m as nat, (p + 2) as nat);
            assert((t * factor) * pow2((p + 2) as nat) == t * (factor * pow2((p + 2) as nat)))
                by (nonlinear_arith);
        }
        let r: u64 = (p as u64) * HIDDEN_BIT + (sig as u64);
        proof {
            assert(4 * magnitude(r) == target);
            lemma_exact_is_nearest(r, target);
        }
        r
    } else {
        let n: u32 = p + 2 - e;
        let unit: u128 = power_of_two(n);
        let half: u128 = power_of_two(n - 1);
        proof {
            lemma_pow2_pos(n as nat);
        }
        let q0: u128 = t / unit;
        let rem: u128 = t % unit;
        let up: bool = rem > half || (rem == half && q0 % 2 == 1);
        proof {
            lemma_pow2_unfold(n as nat);
            lemma_pow2_adds(53, n as nat);
            assert(t == q0 * unit + rem && rem < unit) by {
                vstd::arithmetic::div_mod::lemma_fundamental_div_mod(t as int, unit as int);
                vstd::arithmetic::div_mod::lemma_mod_bound(t as int, unit as int);
            }
            // q0 < 2^53
            if p > 0 {
                assert(len == 53 + n);
                lemma_pow2_adds(52, n as nat);
                assert(len - 1 == 52 + n);
            } else {
                lemma_pow2_increases(len as nat, (53 + n) as nat);
            }
            assert(q0 < 2 * HIDDEN_BIT) by (nonlinear_arith)
                requires
                    t == q0 * unit + rem,
                    t < (2 * HIDDEN_BIT) * unit,
                    unit > 0,
            ;
            if p > 0 {
                assert(q0 >= HIDDEN_BIT) by (nonlinear_arith)
                    requires
                        t == q0 * unit + rem,
                        rem < unit,
                        t >= HIDDEN_BIT * unit,
                        unit > 0,
                ;
            }
        }
        let sig: u128 = if up { q0 + 1 } else { q0 };
        let lo: u64 = (p as u64) * HIDDEN_BIT + (q0 as u64);
        let r: u64 = (p as u64) * HIDDEN_BIT + (sig as u64);
        proof {
            let scale_e = pow2(e as nat);
            lemma_encode_quarters(p as nat, q0 as nat);
            lemma_encode_quarters(p as nat, (q0 + 1) as nat);
            lemma_pow2_adds(n as nat, e as nat);
            assert(pow2((p + 2) as nat) == unit * scale_e);
            assert(q0 * (unit * scale_e) + rem * scale_e == (q0 * unit + rem) * scale_e)
                by (nonlinear_arith);
            assert((q0 + 1) * (unit * scale_e) == (q0 * unit + rem) * scale_e + (unit - rem)
                * scale_e) by (nonlinear_arith);
            assert(4 * magnitude(lo) + rem * scale_e == target);
            assert(4 * magnitude((lo + 1) as u64) == target + (unit - rem) * scale_e);
            assert(rem * scale_e >= 0 && (unit - rem) * scale_e >= 0) by (nonlinear_arith)
                requires
                    rem >= 0,
                    unit - rem >= 0,
                    scale_e > 0,
            ;
            assert(distance(lo, target) == rem * scale_e);
            assert(distance((lo + 1) as u64, target) == (unit - rem) * scale_e);
            // the order of the two distances is the order of the two remainders
            if rem < unit - rem {
                assert(rem * scale_e < (unit - rem) * scale_e) by (nonlinear_arith)
                    requires
                        rem < unit - rem,
                        scale_e > 0,
                ;
            } else if rem > unit - rem {
                assert(rem * scale_e > (unit - rem) * scale_e) by (nonlinear_arith)
                    requires
                        rem > unit - rem,
                        scale_e > 0,
                ;
            }
            assert(unit == 2 * half);
            lemma_bracket(lo, r, target);
        }
        r
    }
}

} // verus!
