// Conformance of records: the twelve invariants on good and bad records, the
// band edges 0.0, 0.2, 0.4, 0.6, 0.8 and 1.0, NaN and out-of-range values,
// streams, and the emitter.

use pmatrix_encoder::demo::{demo_risk_score, demo_stability_score};
use pmatrix_encoder::invariants::{validate_all, validate_stream_t1};
use pmatrix_encoder::mode::{demo_partition_map, mode_to_risk_level};
use pmatrix_encoder::scalar::Scalar;
use pmatrix_encoder::schema::{Functions, RuntimeStateRecord, SCHEMA_VERSION, SPEC_VERSION};
use pmatrix_encoder::{emit_demo_record, is_record_valid};

fn s(x: f64) -> Scalar {
    Scalar::from_bits(x.to_bits())
}

fn make_record(
    baseline: f64,
    norm: f64,
    stability: f64,
    meta_control: f64,
    stability_score: f64,
    risk_score: f64,
    mode: &str,
    risk_level: &str,
    timestamp: u64,
) -> RuntimeStateRecord {
    RuntimeStateRecord {
        spec_version: SPEC_VERSION.to_string(),
        schema_version: SCHEMA_VERSION.to_string(),
        timestamp,
        functions: Functions {
            baseline: s(baseline),
            norm: s(norm),
            stability: s(stability),
            meta_control: s(meta_control),
        },
        stability_score: s(stability_score),
        risk_score: s(risk_score),
        mode: mode.to_string(),
        risk_level: risk_level.to_string(),
    }
}

#[test]
fn test_spec_example_record() {
    let record = make_record(0.25, 0.70, 0.30, 0.20, 0.58, 0.42, "Caution", "L3", 1707500000);
    assert!(is_record_valid(&record));
}

#[test]
fn test_boundary_optimal_lower() {
    assert_eq!(demo_partition_map(s(0.0)), Some("Optimal"));
    let record = make_record(1.0, 1.0, 1.0, 1.0, 1.0, 0.0, "Optimal", "L1", 1000);
    assert!(is_record_valid(&record));
}

#[test]
fn test_boundary_optimal_upper() {
    assert_eq!(demo_partition_map(s(0.19999999)), Some("Optimal"));
}

#[test]
fn test_boundary_normal_lower() {
    assert_eq!(demo_partition_map(s(0.2)), Some("Normal"));
    let record = make_record(0.5, 0.5, 0.5, 0.5, 0.8, 0.2, "Normal", "L2", 1000);
    assert!(is_record_valid(&record));
}

#[test]
fn test_boundary_caution_lower() {
    assert_eq!(demo_partition_map(s(0.4)), Some("Caution"));
}

#[test]
fn test_boundary_alert_lower() {
    assert_eq!(demo_partition_map(s(0.6)), Some("Alert"));
}

#[test]
fn test_boundary_halt_lower() {
    assert_eq!(demo_partition_map(s(0.8)), Some("Halt"));
}

#[test]
fn test_boundary_halt_upper() {
    assert_eq!(demo_partition_map(s(1.0)), Some("Halt"));
    let record = make_record(0.0, 0.0, 0.0, 0.0, 0.0, 1.0, "Halt", "L5", 1000);
    assert!(is_record_valid(&record));
}

#[test]
fn test_inv_r1_valid_zeros() {
    let record = make_record(0.0, 0.0, 0.0, 0.0, 0.0, 1.0, "Halt", "L5", 1000);
    let results = validate_all(&record);
    assert!(results.iter().find(|r| r.id == "INV-R1").unwrap().passed);
}

#[test]
fn test_inv_r1_valid_ones() {
    let record = make_record(1.0, 1.0, 1.0, 1.0, 1.0, 0.0, "Optimal", "L1", 1000);
    let results = validate_all(&record);
    assert!(results.iter().find(|r| r.id == "INV-R1").unwrap().passed);
}

#[test]
fn test_inv_r1_fail_negative() {
    let record = make_record(-0.1, 0.5, 0.5, 0.5, 0.5, 0.5, "Caution", "L3", 1000);
    let results = validate_all(&record);
    assert!(!results.iter().find(|r| r.id == "INV-R1").unwrap().passed);
}

#[test]
fn test_inv_r1_fail_above_one() {
    let record = make_record(0.5, 1.1, 0.5, 0.5, 0.5, 0.5, "Caution", "L3", 1000);
    let results = validate_all(&record);
    assert!(!results.iter().find(|r| r.id == "INV-R1").unwrap().passed);
}

#[test]
fn test_inv_r1_fail_nan() {
    let record = make_record(f64::NAN, 0.5, 0.5, 0.5, 0.5, 0.5, "Caution", "L3", 1000);
    let results = validate_all(&record);
    assert!(!results.iter().find(|r| r.id == "INV-R1").unwrap().passed);
}

#[test]
fn test_inv_r2_fail_out_of_range() {
    let record = make_record(0.5, 0.5, 0.5, 0.5, 1.5, 0.5, "Caution", "L3", 1000);
    let results = validate_all(&record);
    assert!(!results.iter().find(|r| r.id == "INV-R2").unwrap().passed);
}

#[test]
fn test_inv_r3_fail_nan() {
    let record = make_record(0.5, 0.5, 0.5, 0.5, 0.5, f64::NAN, "Caution", "L3", 1000);
    let results = validate_all(&record);
    assert!(!results.iter().find(|r| r.id == "INV-R3").unwrap().passed);
}

#[test]
fn test_inv_r4_fail_zero() {
    let record = make_record(0.5, 0.5, 0.5, 0.5, 0.5, 0.5, "Caution", "L3", 0);
    let results = validate_all(&record);
    assert!(!results.iter().find(|r| r.id == "INV-R4").unwrap().passed);
}

#[test]
fn test_inv_c1_fail_wrong_mode() {
    // 0.35 calls for "Normal", not "Caution"
    let record = make_record(0.5, 0.5, 0.5, 0.5, 0.65, 0.35, "Caution", "L3", 1000);
    let results = validate_all(&record);
    assert!(!results.iter().find(|r| r.id == "INV-C1").unwrap().passed);
}

#[test]
fn test_inv_c2_fail_wrong_level() {
    let record = make_record(0.5, 0.5, 0.5, 0.5, 0.5, 0.5, "Caution", "L4", 1000);
    let results = validate_all(&record);
    assert!(!results.iter().find(|r| r.id == "INV-C2").unwrap().passed);
}

#[test]
fn test_inv_s3_fail_wrong_version() {
    let mut record = make_record(0.5, 0.5, 0.5, 0.5, 0.5, 0.5, "Caution", "L3", 1000);
    record.spec_version = "pmatrix-4.0".to_string();
    let results = validate_all(&record);
    assert!(!results.iter().find(|r| r.id == "INV-S3").unwrap().passed);
}

#[test]
fn test_inv_s4_fail_invalid_semver() {
    let mut record = make_record(0.5, 0.5, 0.5, 0.5, 0.5, 0.5, "Caution", "L3", 1000);
    record.schema_version = "1.0".to_string();
    let results = validate_all(&record);
    assert!(!results.iter().find(|r| r.id == "INV-S4").unwrap().passed);
}

#[test]
fn test_inv_t1_valid_stream() {
    let records = vec![
        make_record(0.5, 0.5, 0.5, 0.5, 0.5, 0.5, "Caution", "L3", 1000),
        make_record(0.5, 0.5, 0.5, 0.5, 0.5, 0.5, "Caution", "L3", 1000), // equal is allowed
        make_record(0.5, 0.5, 0.5, 0.5, 0.5, 0.5, "Caution", "L3", 1001),
    ];
    assert_eq!(validate_stream_t1(&records), None);
}

#[test]
fn test_inv_t1_fail_decreasing() {
    let records = vec![
        make_record(0.5, 0.5, 0.5, 0.5, 0.5, 0.5, "Caution", "L3", 1001),
        make_record(0.5, 0.5, 0.5, 0.5, 0.5, 0.5, "Caution", "L3", 1000), // falls
    ];
    assert_eq!(validate_stream_t1(&records), Some(1));
}

#[test]
fn test_emit_demo_record_valid() {
    let record = emit_demo_record(s(0.25), s(0.70), s(0.30), s(0.20), Some(1707500000)).unwrap();
    assert!(is_record_valid(&record));
    assert_eq!(record.spec_version, "pmatrix-3.5");
    assert_eq!(record.schema_version, "1.0.0");
}

#[test]
fn test_emit_demo_record_all_zeros() {
    let record = emit_demo_record(s(0.0), s(0.0), s(0.0), s(0.0), Some(1000)).unwrap();
    assert!(is_record_valid(&record));
    assert_eq!(record.mode, "Halt");
    assert_eq!(record.risk_level, "L5");
}

#[test]
fn test_emit_demo_record_all_ones() {
    let record = emit_demo_record(s(1.0), s(1.0), s(1.0), s(1.0), Some(1000)).unwrap();
    assert!(is_record_valid(&record));
    assert_eq!(record.mode, "Optimal");
    assert_eq!(record.risk_level, "L1");
}

#[test]
fn test_emit_demo_record_reject_nan() {
    assert!(emit_demo_record(s(f64::NAN), s(0.5), s(0.5), s(0.5), Some(1000)).is_err());
}

#[test]
fn test_emit_demo_record_reject_out_of_range() {
    assert!(emit_demo_record(s(0.5), s(1.5), s(0.5), s(0.5), Some(1000)).is_err());
    assert!(emit_demo_record(s(-0.1), s(0.5), s(0.5), s(0.5), Some(1000)).is_err());
}

#[test]
fn test_emit_demo_record_reject_infinite() {
    assert!(emit_demo_record(s(f64::INFINITY), s(0.5), s(0.5), s(0.5), Some(1000)).is_err());
    assert!(emit_demo_record(s(f64::NEG_INFINITY), s(0.5), s(0.5), s(0.5), Some(1000)).is_err());
}

#[test]
fn test_demo_stability_score() {
    let f = Functions { baseline: s(0.25), norm: s(0.70), stability: s(0.30), meta_control: s(0.20) };
    let score = f64::from_bits(demo_stability_score(&f).to_bits());
    assert!((score - 0.3625).abs() < 1e-10);
}

#[test]
fn test_demo_risk_score() {
    let score = f64::from_bits(demo_risk_score(s(0.3625)).to_bits());
    assert!((score - 0.6375).abs() < 1e-10);
}

#[test]
fn test_partition_map_rejects_negative() {
    assert_eq!(demo_partition_map(s(-0.001)), None);
}

#[test]
fn test_partition_map_rejects_above_one() {
    assert_eq!(demo_partition_map(s(1.001)), None);
}

#[test]
fn test_partition_map_rejects_nan() {
    assert_eq!(demo_partition_map(s(f64::NAN)), None);
}

#[test]
fn test_mode_to_risk_level_all() {
    assert_eq!(mode_to_risk_level("Optimal"), Some("L1"));
    assert_eq!(mode_to_risk_level("Normal"), Some("L2"));
    assert_eq!(mode_to_risk_level("Caution"), Some("L3"));
    assert_eq!(mode_to_risk_level("Alert"), Some("L4"));
    assert_eq!(mode_to_risk_level("Halt"), Some("L5"));
    assert_eq!(mode_to_risk_level("Unknown"), None);
}
