// The partition of risk scores into modes, the table of levels, and scalars.

use pmatrix_encoder::mode::{
    demo_partition_map, mode_to_level, mode_to_risk_level, risk_to_mode, ALERT_FLOOR,
    CAUTION_FLOOR, HALT_FLOOR, NORMAL_FLOOR,
};
use pmatrix_encoder::scalar::{Scalar, INFINITY_BITS, NEG_ZERO_BITS, ONE_BITS, ZERO_BITS};
use pmatrix_encoder::schema::{Mode, RiskLevel, MODES, RISK_LEVELS, SCHEMA_VERSION, SPEC_VERSION};
use pmatrix_encoder::text::str_eq;

fn s(x: f64) -> Scalar {
    Scalar::from_bits(x.to_bits())
}

// the band that comparisons of machine doubles give
fn band_by_machine(x: f64) -> Option<&'static str> {
    if x < 0.0 || x > 1.0 || x.is_nan() {
        return None;
    }
    Some(if x < 0.2 {
        "Optimal"
    } else if x < 0.4 {
        "Normal"
    } else if x < 0.6 {
        "Caution"
    } else if x < 0.8 {
        "Alert"
    } else {
        "Halt"
    })
}

#[test]
fn floors_are_the_doubles_written_in_decimal() {
    assert_eq!(NORMAL_FLOOR, 0.2f64.to_bits());
    assert_eq!(CAUTION_FLOOR, 0.4f64.to_bits());
    assert_eq!(ALERT_FLOOR, 0.6f64.to_bits());
    assert_eq!(HALT_FLOOR, 0.8f64.to_bits());
    assert_eq!(ONE_BITS, 1.0f64.to_bits());
    assert_eq!(ZERO_BITS, 0.0f64.to_bits());
    assert_eq!(NEG_ZERO_BITS, (-0.0f64).to_bits());
    assert_eq!(INFINITY_BITS, f64::INFINITY.to_bits());
}

#[test]
fn every_floor_opens_its_band_and_the_double_below_closes_the_last() {
    let floors = [(0.2, "Optimal", "Normal"), (0.4, "Normal", "Caution"), (0.6, "Caution", "Alert"), (0.8, "Alert", "Halt")];
    for &(floor, below, at) in &floors {
        let floor: f64 = floor;
        assert_eq!(demo_partition_map(s(floor)), Some(at));
        assert_eq!(demo_partition_map(Scalar::from_bits(floor.to_bits() - 1)), Some(below));
        assert_eq!(demo_partition_map(Scalar::from_bits(floor.to_bits() + 1)), Some(at));
    }
}

#[test]
fn unit_interval_ends() {
    assert_eq!(demo_partition_map(s(0.0)), Some("Optimal"));
    assert_eq!(demo_partition_map(s(-0.0)), Some("Optimal"));
    assert_eq!(demo_partition_map(Scalar::from_bits(1)), Some("Optimal"));
    assert_eq!(demo_partition_map(s(1.0)), Some("Halt"));
    assert_eq!(demo_partition_map(Scalar::from_bits(ONE_BITS + 1)), None);
    assert_eq!(demo_partition_map(Scalar::from_bits(NEG_ZERO_BITS + 1)), None);
    assert_eq!(demo_partition_map(s(-1.0)), None);
    assert_eq!(demo_partition_map(s(2.0)), None);
    assert_eq!(demo_partition_map(s(f64::INFINITY)), None);
    assert_eq!(demo_partition_map(s(f64::NEG_INFINITY)), None);
    assert_eq!(demo_partition_map(s(f64::NAN)), None);
    assert_eq!(demo_partition_map(Scalar::from_bits(0x7ff0_0000_0000_0001)), None);
    assert_eq!(demo_partition_map(Scalar::from_bits(0xfff8_0000_0000_0000)), None);
    assert_eq!(demo_partition_map(Scalar::from_bits(u64::MAX)), None);
}

#[test]
fn partition_agrees_with_machine_comparisons() {
    let mut state: u64 = 41;
    for _ in 0..50000 {
        state = state.wrapping_mul(6364136223846793005).wrapping_add(1442695040888963407);
        let word = state ^ (state >> 31);
        let x = f64::from_bits(word);
        assert_eq!(demo_partition_map(s(x)), band_by_machine(x), "pattern {:#x}", word);
        let y = (word >> 11) as f64 / (1u64 << 53) as f64 * 1.25 - 0.125;
        assert_eq!(demo_partition_map(s(y)), band_by_machine(y), "value {:e}", y);
    }
}

#[test]
fn partition_gives_the_same_mode_every_time() {
    for &x in &[0.0, 0.1, 0.2, 0.35, 0.5, 0.6375, 0.8, 1.0] {
        let first = demo_partition_map(s(x));
        assert!(first.is_some());
        assert!(MODES.contains(&first.unwrap()));
        assert_eq!(demo_partition_map(s(x)), first);
        assert_eq!(risk_to_mode(s(x)).map(|m| m.name()), first);
    }
}

#[test]
fn a_higher_score_never_has_a_lower_mode() {
    let mut last = 0;
    let mut x = 0.0f64;
    while x <= 1.0 {
        let name = demo_partition_map(s(x)).unwrap();
        let rank = MODES.iter().position(|m| *m == name).unwrap();
        assert!(rank >= last);
        last = rank;
        x += 0.001;
    }
    assert_eq!(last, 4);
}

#[test]
fn modes_and_levels_pair_off() {
    let modes = [Mode::Optimal, Mode::Normal, Mode::Caution, Mode::Alert, Mode::Halt];
    let levels = [RiskLevel::L1, RiskLevel::L2, RiskLevel::L3, RiskLevel::L4, RiskLevel::L5];
    for i in 0..5 {
        assert_eq!(mode_to_level(modes[i]), levels[i]);
        assert_eq!(modes[i].name(), MODES[i]);
        assert_eq!(levels[i].name(), RISK_LEVELS[i]);
        assert_eq!(Mode::from_name(MODES[i]), Some(modes[i]));
        assert_eq!(RiskLevel::from_name(RISK_LEVELS[i]), Some(levels[i]));
        assert_eq!(mode_to_risk_level(MODES[i]), Some(RISK_LEVELS[i]));
        for j in 0..5 {
            if i != j {
                assert_ne!(mode_to_risk_level(MODES[i]), mode_to_risk_level(MODES[j]));
            }
        }
    }
}

#[test]
fn strings_that_name_no_mode_have_no_level() {
    for name in ["", "optimal", "OPTIMAL", "Optimal ", " Optimal", "Optima", "Optimall", "L1", "Halt\0", "Hält", "Unknown"] {
        assert_eq!(mode_to_risk_level(name), None, "{:?}", name);
        assert_eq!(Mode::from_name(name), None, "{:?}", name);
    }
    for name in ["", "l1", "L0", "L6", "L", "L11", "Optimal"] {
        assert_eq!(RiskLevel::from_name(name), None, "{:?}", name);
    }
}

#[test]
fn version_constants() {
    assert_eq!(SPEC_VERSION, "pmatrix-3.5");
    assert_eq!(SCHEMA_VERSION, "1.0.0");
}

#[test]
fn strings_compare_by_their_characters() {
    assert!(str_eq("", ""));
    assert!(str_eq("Alert", "Alert"));
    assert!(!str_eq("Alert", "Alerts"));
    assert!(!str_eq("Alert", "alert"));
    assert!(!str_eq("", "a"));
    assert!(str_eq("Hält", "Hält"));
    assert!(!str_eq("Hält", "Halt"));
    assert!(!str_eq("é", "e\u{301}"));
}

#[test]
fn scalars_are_classified_by_their_bits() {
    assert!(s(f64::NAN).is_nan());
    assert!(Scalar::from_bits(0x7ff0_0000_0000_0001).is_nan());
    assert!(Scalar::from_bits(0xffff_ffff_ffff_ffff).is_nan());
    assert!(!s(f64::INFINITY).is_nan());
    assert!(!s(1.0).is_nan());
    assert!(s(f64::INFINITY).is_infinite());
    assert!(s(f64::NEG_INFINITY).is_infinite());
    assert!(!s(f64::MAX).is_infinite());
    assert!(!s(f64::NAN).is_infinite());
    assert!(s(0.0).is_zero());
    assert!(s(-0.0).is_zero());
    assert!(!Scalar::from_bits(1).is_zero());
    assert!(s(0.0).in_unit_interval());
    assert!(s(-0.0).in_unit_interval());
    assert!(s(1.0).in_unit_interval());
    assert!(s(5e-324).in_unit_interval());
    assert!(!s(-5e-324).in_unit_interval());
    assert!(!s(1.0000000000000002).in_unit_interval());
    assert!(!s(f64::NAN).in_unit_interval());
    assert!(!s(f64::INFINITY).in_unit_interval());
    assert_eq!(s(0.75).to_bits(), 0.75f64.to_bits());
}

#[test]
fn scalars_are_ordered_and_equal_as_numbers() {
    assert!(s(0.1).below(s(0.2)));
    assert!(!s(0.2).below(s(0.2)));
    assert!(!s(0.3).below(s(0.2)));
    assert!(!s(-0.0).below(s(0.0)));
    assert!(!s(0.0).below(s(-0.0)));
    assert!(s(-0.0).below(s(5e-324)));
    assert!(s(5e-324).below(s(1.0)));
    assert!(s(-1.0).below(s(-0.5)));
    assert!(!s(-0.5).below(s(-1.0)));
    assert!(s(-0.5).below(s(0.0)));
    assert!(s(-0.5).below(s(-0.0)));
    assert!(s(f64::NEG_INFINITY).below(s(f64::MIN)));
    assert!(s(f64::MAX).below(s(f64::INFINITY)));
    assert!(!s(f64::NAN).below(s(1.0)));
    assert!(!s(1.0).below(s(f64::NAN)));
    let mut state: u64 = 53;
    for _ in 0..50000 {
        state = state.wrapping_mul(6364136223846793005).wrapping_add(1442695040888963407);
        let a = f64::from_bits(state ^ (state >> 29));
        state = state.wrapping_mul(6364136223846793005).wrapping_add(1442695040888963407);
        let b = f64::from_bits(state ^ (state >> 29));
        assert_eq!(s(a).below(s(b)), a < b);
        assert_eq!(s(a) == s(b), a == b);
        assert_eq!(s(a).below(s(a)), false);
        assert_eq!(s(a).is_nan(), a.is_nan());
        assert_eq!(s(a).is_infinite(), a.is_infinite());
        assert_eq!(s(a).in_unit_interval(), (0.0..=1.0).contains(&a));
    }
    assert!(s(0.0) == s(-0.0));
    assert!(s(0.5) == s(0.5));
    assert!(s(0.5) != s(0.25));
    assert!(s(f64::NAN) != s(f64::NAN));
    assert!(s(f64::NAN) != s(0.5));
}
