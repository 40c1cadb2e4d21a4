// The rounded sum, quarter and complement against the arithmetic of the machine.

use pmatrix_encoder::arith::{complement, quarter, sum};
use pmatrix_encoder::demo::{demo_risk_score, demo_stability_score};
use pmatrix_encoder::rounding::round_to_nearest;
use pmatrix_encoder::scalar::Scalar;
use pmatrix_encoder::schema::Functions;

fn s(x: f64) -> Scalar {
    Scalar::from_bits(x.to_bits())
}

// a fixed sequence of 64-bit words
fn next_word(state: &mut u64) -> u64 {
    *state = state.wrapping_mul(6364136223846793005).wrapping_add(1442695040888963407);
    let mut z = *state;
    z ^= z >> 33;
    z = z.wrapping_mul(0xff51afd7ed558ccd);
    z ^= z >> 29;
    z
}

// doubles that cover the unit interval the way bit patterns do: every exponent is as
// likely as any other, so tiny and subnormal values come up as often as large ones
fn unit_by_pattern(state: &mut u64) -> f64 {
    let one = 1.0f64.to_bits();
    f64::from_bits(next_word(state) % (one + 1))
}

// doubles that cover the unit interval evenly by value
fn unit_by_value(state: &mut u64) -> f64 {
    (next_word(state) >> 11) as f64 / (1u64 << 53) as f64
}

fn edge_values() -> Vec<f64> {
    vec![
        0.0,
        -0.0,
        1.0,
        0.5,
        0.25,
        0.75,
        0.1,
        0.2,
        0.3,
        0.7,
        f64::from_bits(1),
        f64::from_bits(2),
        f64::from_bits(3),
        f64::from_bits(5),
        f64::from_bits(6),
        f64::from_bits(7),
        f64::MIN_POSITIVE,
        f64::from_bits(f64::MIN_POSITIVE.to_bits() - 1),
        f64::from_bits(f64::MIN_POSITIVE.to_bits() + 1),
        f64::from_bits(f64::MIN_POSITIVE.to_bits() * 2 + 1),
        f64::from_bits(f64::MIN_POSITIVE.to_bits() * 3 + 3),
        f64::EPSILON,
        f64::EPSILON / 2.0,
        f64::EPSILON / 4.0,
        f64::EPSILON / 8.0,
        1.0 - f64::EPSILON,
        1.0 - f64::EPSILON / 2.0,
        f64::from_bits(1.0f64.to_bits() - 2),
        f64::from_bits(0.5f64.to_bits() - 1),
        f64::from_bits(0.5f64.to_bits() + 1),
        1e-300,
        1e-310,
        1e-20,
        1e-17,
        3e-17,
        5.551115123125783e-17,
        1.1102230246251565e-16,
    ]
}

#[test]
fn sum_agrees_with_machine_on_edge_values() {
    let values = edge_values();
    for &a in &values {
        for &b in &values {
            assert_eq!(sum(s(a), s(b)).to_bits(), (a + b).to_bits(), "{:e} + {:e}", a, b);
        }
    }
}

#[test]
fn sum_agrees_with_machine_on_many_values() {
    let mut state: u64 = 17;
    for _ in 0..20000 {
        let a = unit_by_pattern(&mut state);
        let b = unit_by_pattern(&mut state);
        assert_eq!(sum(s(a), s(b)).to_bits(), (a + b).to_bits(), "{:e} + {:e}", a, b);
        let c = unit_by_value(&mut state);
        let d = unit_by_value(&mut state);
        assert_eq!(sum(s(c), s(d)).to_bits(), (c + d).to_bits(), "{:e} + {:e}", c, d);
        assert_eq!(sum(s(a), s(c)).to_bits(), (a + c).to_bits(), "{:e} + {:e}", a, c);
    }
}

#[test]
fn sum_of_larger_operands_agrees_with_machine() {
    let mut state: u64 = 23;
    for _ in 0..20000 {
        let a = unit_by_value(&mut state) * 3.0;
        let b = unit_by_value(&mut state);
        assert_eq!(sum(s(a), s(b)).to_bits(), (a + b).to_bits(), "{:e} + {:e}", a, b);
        assert_eq!(sum(s(b), s(a)).to_bits(), (b + a).to_bits(), "{:e} + {:e}", b, a);
    }
    assert_eq!(sum(s(3.0), s(1.0)).to_bits(), 4.0f64.to_bits());
    assert_eq!(sum(s(2.0), s(1.0)).to_bits(), 3.0f64.to_bits());
    assert_eq!(sum(s(4.0), s(4.0)).to_bits(), 8.0f64.to_bits());
}

#[test]
fn sum_of_zeros_keeps_the_sign_only_when_both_are_negative() {
    assert_eq!(sum(s(-0.0), s(-0.0)).to_bits(), (-0.0f64).to_bits());
    assert_eq!(sum(s(-0.0), s(0.0)).to_bits(), 0.0f64.to_bits());
    assert_eq!(sum(s(0.0), s(-0.0)).to_bits(), 0.0f64.to_bits());
    assert_eq!(sum(s(0.0), s(0.0)).to_bits(), 0.0f64.to_bits());
    assert_eq!(sum(s(-0.0), s(0.5)).to_bits(), 0.5f64.to_bits());
}

#[test]
fn sum_rounds_ties_to_even() {
    // 1 + 2^-53 lies midway between 1 and the next double: it goes to 1
    let half_step = f64::EPSILON / 2.0;
    assert_eq!(sum(s(1.0), s(half_step)).to_bits(), 1.0f64.to_bits());
    // (1 + 2^-52) + 2^-53 lies midway too, and goes up, to the even pattern
    let odd = 1.0 + f64::EPSILON;
    assert_eq!(sum(s(odd), s(half_step)).to_bits(), (1.0 + 2.0 * f64::EPSILON).to_bits());
    // a little more than half a step goes up
    let more = f64::from_bits(half_step.to_bits() + 1);
    assert_eq!(sum(s(1.0), s(more)).to_bits(), (1.0 + f64::EPSILON).to_bits());
}

#[test]
fn quarter_agrees_with_machine() {
    for &a in &edge_values() {
        assert_eq!(quarter(s(a)).to_bits(), (a / 4.0).to_bits(), "{:e} / 4", a);
    }
    let mut state: u64 = 29;
    for _ in 0..20000 {
        let a = unit_by_pattern(&mut state);
        assert_eq!(quarter(s(a)).to_bits(), (a / 4.0).to_bits(), "{:e} / 4", a);
        let b = unit_by_value(&mut state) * 4.0;
        assert_eq!(quarter(s(b)).to_bits(), (b / 4.0).to_bits(), "{:e} / 4", b);
    }
    for bits in 0u64..64 {
        let a = f64::from_bits(bits);
        assert_eq!(quarter(s(a)).to_bits(), (a / 4.0).to_bits(), "pattern {}", bits);
        let b = f64::from_bits(f64::MIN_POSITIVE.to_bits() * 2 - 32 + bits);
        assert_eq!(quarter(s(b)).to_bits(), (b / 4.0).to_bits(), "{:e} / 4", b);
    }
    assert_eq!(quarter(s(4.0)).to_bits(), 1.0f64.to_bits());
    assert_eq!(quarter(s(-0.0)).to_bits(), (-0.0f64).to_bits());
}

#[test]
fn complement_agrees_with_machine() {
    for &a in &edge_values() {
        assert_eq!(complement(s(a)).to_bits(), (1.0 - a).to_bits(), "1 - {:e}", a);
    }
    let mut state: u64 = 31;
    for _ in 0..20000 {
        let a = unit_by_pattern(&mut state);
        assert_eq!(complement(s(a)).to_bits(), (1.0 - a).to_bits(), "1 - {:e}", a);
        let b = unit_by_value(&mut state);
        assert_eq!(complement(s(b)).to_bits(), (1.0 - b).to_bits(), "1 - {:e}", b);
    }
    assert_eq!(complement(s(1.0)).to_bits(), 0.0f64.to_bits());
    assert_eq!(complement(s(0.0)).to_bits(), 1.0f64.to_bits());
    assert_eq!(complement(s(-0.0)).to_bits(), 1.0f64.to_bits());
    assert_eq!(complement(s(0.3625)).to_bits(), 0.6375f64.to_bits());
}

#[test]
fn stability_score_agrees_with_machine() {
    let values = edge_values();
    for &a in &values {
        for &b in &values {
            for &c in &[0.0, -0.0, 1.0, 0.3, 1e-310, f64::EPSILON / 2.0] {
                for &d in &[0.0, -0.0, 1.0, 0.7, 5e-324] {
                    let f = Functions { baseline: s(a), norm: s(b), stability: s(c), meta_control: s(d) };
                    let expected: f64 = (a + b + c + d) / 4.0;
                    assert_eq!(demo_stability_score(&f).to_bits(), expected.to_bits());
                }
            }
        }
    }
    let mut state: u64 = 37;
    for _ in 0..20000 {
        let a = unit_by_value(&mut state);
        let b = unit_by_value(&mut state);
        let c = unit_by_pattern(&mut state);
        let d = unit_by_value(&mut state);
        let f = Functions { baseline: s(a), norm: s(b), stability: s(c), meta_control: s(d) };
        let expected: f64 = (a + b + c + d) / 4.0;
        let score = demo_stability_score(&f);
        assert_eq!(score.to_bits(), expected.to_bits());
        assert_eq!(demo_risk_score(score).to_bits(), (1.0 - expected).to_bits());
    }
}

#[test]
fn stability_score_exact_values() {
    let f = Functions { baseline: s(0.25), norm: s(0.70), stability: s(0.30), meta_control: s(0.20) };
    assert_eq!(demo_stability_score(&f).to_bits(), 0x3fd7333333333333);
    assert_eq!(demo_risk_score(s(0.3625)).to_bits(), 0x3fe4666666666666);
    let ones = Functions { baseline: s(1.0), norm: s(1.0), stability: s(1.0), meta_control: s(1.0) };
    assert_eq!(demo_stability_score(&ones).to_bits(), 1.0f64.to_bits());
    let zeros = Functions { baseline: s(0.0), norm: s(0.0), stability: s(0.0), meta_control: s(0.0) };
    assert_eq!(demo_stability_score(&zeros).to_bits(), 0);
    let negative_zeros =
        Functions { baseline: s(-0.0), norm: s(-0.0), stability: s(-0.0), meta_control: s(-0.0) };
    assert_eq!(demo_stability_score(&negative_zeros).to_bits(), (-0.0f64).to_bits());
    let halves = Functions { baseline: s(0.5), norm: s(0.5), stability: s(0.5), meta_control: s(0.5) };
    assert_eq!(demo_stability_score(&halves).to_bits(), 0.5f64.to_bits());
}

#[test]
fn round_to_nearest_exact_values() {
    // targets are counted in quarters of 2^-1074
    assert_eq!(round_to_nearest(0, 0), 0);
    assert_eq!(round_to_nearest(0, 100), 0);
    assert_eq!(round_to_nearest(1, 0), 0); // a quarter of the smallest double
    assert_eq!(round_to_nearest(2, 0), 0); // half of it: a tie, to even
    assert_eq!(round_to_nearest(3, 0), 1);
    assert_eq!(round_to_nearest(4, 0), 1);
    assert_eq!(round_to_nearest(5, 0), 1);
    assert_eq!(round_to_nearest(6, 0), 2); // one and a half: a tie, to even
    assert_eq!(round_to_nearest(7, 0), 2);
    assert_eq!(round_to_nearest(10, 0), 2); // two and a half: a tie, to even
    assert_eq!(round_to_nearest(1, 2), 1);
    assert_eq!(round_to_nearest(1, 1076), 1.0f64.to_bits());
    assert_eq!(round_to_nearest(3, 1076), 3.0f64.to_bits());
    assert_eq!(round_to_nearest(1, 54), f64::MIN_POSITIVE.to_bits());
    assert_eq!(round_to_nearest((1u128 << 53) - 1, 2), (1u64 << 53) - 1);
    // 2^54 - 1 lies midway between 2^54 - 2 and 2^54, and goes up into the next power of two
    assert_eq!(round_to_nearest((1u128 << 54) - 1, 2), 3 * (1u64 << 52));
    assert_eq!(round_to_nearest((1u128 << 54) - 2, 2), 3 * (1u64 << 52) - 1);
    assert_eq!(f64::from_bits(round_to_nearest((1u128 << 54) - 1, 2)), 2.0f64.powi(54 - 1074));
}
