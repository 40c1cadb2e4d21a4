//! The partition mapping: risk score to mode, mode to risk level.
//!
//! Five bands cover `[0, 1]`. Each band includes its floor and excludes the floor
//! of the next one; the last band includes `1.0`. The floors are the doubles
//! written `0.2`, `0.4`, `0.6` and `0.8`.

use vstd::prelude::*;
use vstd::arithmetic::power2::pow2;
use crate::rounding::lemma_encode;
use crate::scalar::{
    lemma_magnitude_increases, lemma_unit_interval_bits, lemma_zero_magnitude, magnitude,
    unit_interval, value, Scalar, HIDDEN_BIT, INFINITY_BITS, ONE_BITS,
};
use crate::schema::{Mode, RiskLevel};

verus! {

/// Bit pattern of `0.2`, the floor of `Normal`.
pub const NORMAL_FLOOR: u64 = 0x3FC9_9999_9999_999A;

/// Bit pattern of `0.4`, the floor of `Caution`.
pub const CAUTION_FLOOR: u64 = 0x3FD9_9999_9999_999A;

/// Bit pattern of `0.6`, the floor of `Alert`.
pub const ALERT_FLOOR: u64 = 0x3FE3_3333_3333_3333;

/// Bit pattern of `0.8`, the floor of `Halt`.
pub const HALT_FLOOR: u64 = 0x3FE9_9999_9999_999A;

/// The mode of a risk score: its band, or nothing outside `[0, 1]`.
pub open spec fn partition(risk_score: Scalar) -> Option<Mode> {
    let v = value(risk_score.bits);
    if !unit_interval(risk_score.bits) {
        None
    } else if v < value(NORMAL_FLOOR) {
        Some(Mode::Optimal)
    } else if v < value(CAUTION_FLOOR) {
        Some(Mode::Normal)
    } else if v < value(ALERT_FLOOR) {
        Some(Mode::Caution)
    } else if v < value(HALT_FLOOR) {
        Some(Mode::Alert)
    } else {
        Some(Mode::Halt)
    }
}

/// The risk level that belongs to a mode.
pub open spec fn level_of(mode: Mode) -> RiskLevel {
    match mode {
        Mode::Optimal => RiskLevel::L1,
        Mode::Normal => RiskLevel::L2,
        Mode::Caution => RiskLevel::L3,
        Mode::Alert => RiskLevel::L4,
        Mode::Halt => RiskLevel::L5,
    }
}

/// The mode that a risk level belongs to.
pub open spec fn mode_of(level: RiskLevel) -> Mode {
    match level {
        RiskLevel::L1 => Mode::Optimal,
        RiskLevel::L2 => Mode::Normal,
        RiskLevel::L3 => Mode::Caution,
        RiskLevel::L4 => Mode::Alert,
        RiskLevel::L5 => Mode::Halt,
    }
}

/// The name of the mode of a risk score.
pub open spec fn partition_name(risk_score: Scalar) -> Option<Seq<char>> {
    match partition(risk_score) {
        Some(mode) => Some(mode.spec_name()),
        None => None,
    }
}

/// The name of the level of the mode that `mode` names; nothing for any other string.
pub open spec fn level_name(mode: Seq<char>) -> Option<Seq<char>> {
    match Mode::spec_from_name(mode) {
        Some(m) => Some(level_of(m).spec_name()),
        None => None,
    }
}

/// The mode of a risk score, as a value of the closed enumeration.
pub fn risk_to_mode(risk_score: Scalar) -> (mode: Option<Mode>)
    ensures
        mode == partition(risk_score),
{
    if !risk_score.in_unit_interval() {
        return None;
    }
    proof {
        lemma_floors_in_unit_interval();
    }
    if risk_score.below(Scalar::from_bits(NORMAL_FLOOR)) {
        Some(Mode::Optimal)
    } else if risk_score.below(Scalar::from_bits(CAUTION_FLOOR)) {
        Some(Mode::Normal)
    } else if risk_score.below(Scalar::from_bits(ALERT_FLOOR)) {
        Some(Mode::Caution)
    } else if risk_score.below(Scalar::from_bits(HALT_FLOOR)) {
        Some(Mode::Alert)
    } else {
        Some(Mode::Halt)
    }
}

/// The risk level of a mode.
pub fn mode_to_level(mode: Mode) -> (level: RiskLevel)
    ensures
        level == level_of(mode),
{
    match mode {
        Mode::Optimal => RiskLevel::L1,
        Mode::Normal => RiskLevel::L2,
        Mode::Caution => RiskLevel::L3,
        Mode::Alert => RiskLevel::L4,
        Mode::Halt => RiskLevel::L5,
    }
}

/// The name of the mode of a risk score; `None` for a score outside `[0, 1]` and for a NaN.
pub fn demo_partition_map(risk_score: Scalar) -> (name: Option<&'static str>)
    ensures
        name is Some == partition_name(risk_score) is Some,
        name is Some ==> name->0@ == partition_name(risk_score)->0,
{
    match risk_to_mode(risk_score) {
        Some(mode) => Some(mode.name()),
        None => None,
    }
}

/// The name of the risk level of a named mode; `None` for a string that names no mode.
pub fn mode_to_risk_level(mode: &str) -> (name: Option<&'static str>)
    ensures
        name is Some == level_name(mode@) is Some,
        name is Some ==> name->0@ == level_name(mode@)->0,
{
    match Mode::from_name(mode) {
        Some(m) => Some(mode_to_level(m).name()),
        None => None,
    }
}

/// The four floors lie in `(0, 1)`, in rising order.
pub proof fn lemma_floors_in_unit_interval()
    ensures
        unit_interval(NORMAL_FLOOR),
        unit_interval(CAUTION_FLOOR),
        unit_interval(ALERT_FLOOR),
        unit_interval(HALT_FLOOR),
        0 < value(NORMAL_FLOOR) < value(CAUTION_FLOOR) < value(ALERT_FLOOR) < value(HALT_FLOOR)
            < value(ONE_BITS),
{
    lemma_unit_interval_bits(NORMAL_FLOOR);
    lemma_unit_interval_bits(CAUTION_FLOOR);
    lemma_unit_interval_bits(ALERT_FLOOR);
    lemma_unit_interval_bits(HALT_FLOOR);
    lemma_zero_magnitude(NORMAL_FLOOR);
    lemma_magnitude_increases(NORMAL_FLOOR, CAUTION_FLOOR);
    lemma_magnitude_increases(CAUTION_FLOOR, ALERT_FLOOR);
    lemma_magnitude_increases(ALERT_FLOOR, HALT_FLOOR);
    lemma_magnitude_increases(HALT_FLOOR, ONE_BITS);
}

/// How far five times the value of `bits` lies from `fifths` times one.
pub open spec fn distance_to_fifths(bits: u64, fifths: nat) -> int {
    let d = 5 * magnitude(bits) - fifths * magnitude(ONE_BITS);
    if d >= 0 {
        d
    } else {
        -d
    }
}

/// No finite double lies closer to `fifths` fifths than `bits` does.
pub open spec fn nearest_to_fifths(bits: u64, fifths: nat) -> bool {
    forall|b: u64|
        b < INFINITY_BITS ==> distance_to_fifths(bits, fifths) <= #[trigger] distance_to_fifths(
            b,
            fifths,
        )
}

/// The size of a multiple of a unit is the size of the multiplier times the unit.
proof fn lemma_scaled_size(h: int, unit: nat)
    ensures
        h >= 0 ==> h * unit >= 0,
        h <= 0 ==> h * unit <= 0,
        (-h) * unit == -(h * unit),
{
    assert(h >= 0 ==> h * unit >= 0) by (nonlinear_arith);
    assert(h <= 0 ==> h * unit <= 0) by (nonlinear_arith);
    assert((-h) * unit == -(h * unit)) by (nonlinear_arith);
}

/// `bits`, with the given significand and scale, is the double nearest to `fifths` fifths:
/// its neighbours on both sides lie farther off, and so does everything beyond them.
proof fn lemma_nearest_fifth(bits: u64, fifths: nat, sig: nat, p: nat, shift: nat)
    requires
        0 < bits < ONE_BITS,
        bits == p * HIDDEN_BIT + sig,
        HIDDEN_BIT < sig < 2 * HIDDEN_BIT - 1,
        1 <= p <= 1022,
        shift == pow2((1022 - p) as nat),
        -2 <= 5 * sig - fifths * HIDDEN_BIT * shift <= 2,
    ensures
        nearest_to_fifths(bits, fifths),
{
    let unit = pow2(p);
    let target: int = fifths * HIDDEN_BIT * shift;
    let here: int = 5 * sig - target;
    lemma_encode(p, sig);
    lemma_encode(p, (sig - 1) as nat);
    lemma_encode(p, sig + 1);
    lemma_encode(1022, HIDDEN_BIT as nat);
    vstd::arithmetic::power2::lemma_pow2_adds((1022 - p) as nat, p);
    assert(fifths * magnitude(ONE_BITS) == target * unit) by (nonlinear_arith)
        requires
            magnitude(ONE_BITS) == HIDDEN_BIT * (shift * unit),
            target == fifths * HIDDEN_BIT * shift,
    ;
    let below = (bits - 1) as u64;
    let above = (bits + 1) as u64;
    assert(5 * magnitude(bits) - target * unit == here * unit) by (nonlinear_arith)
        requires
            magnitude(bits) == sig * unit,
            here == 5 * sig - target,
    ;
    assert(5 * magnitude(below) - target * unit == (here - 5) * unit) by (nonlinear_arith)
        requires
            magnitude(below) == (sig - 1) * unit,
            here == 5 * sig - target,
    ;
    assert(5 * magnitude(above) - target * unit == (here + 5) * unit) by (nonlinear_arith)
        requires
            magnitude(above) == (sig + 1) * unit,
            here == 5 * sig - target,
    ;
    lemma_scaled_size(here, unit);
    lemma_scaled_size(here - 5, unit);
    lemma_scaled_size(here + 5, unit);
    // between two and three units on either side, against at most two units here
    assert(here * unit <= 2 * unit && (-here) * unit <= 2 * unit) by (nonlinear_arith)
        requires
            -2 <= here <= 2,
    ;
    assert((5 - here) * unit >= 3 * unit && (here + 5) * unit >= 3 * unit) by (nonlinear_arith)
        requires
            -2 <= here <= 2,
    ;
    assert((5 - here) * unit == -((here - 5) * unit)) by (nonlinear_arith);
    assert(distance_to_fifths(bits, fifths) <= 2 * unit);
    assert(distance_to_fifths(below, fifths) >= 3 * unit);
    assert(distance_to_fifths(above, fifths) >= 3 * unit);
    assert forall|b: u64| b < INFINITY_BITS implies distance_to_fifths(bits, fifths)
        <= #[trigger] distance_to_fifths(b, fifths) by {
        if b < below {
            lemma_magnitude_increases(b, below);
        } else if b > above {
            lemma_magnitude_increases(above, b);
        }
    }
}

/// The four floors are the doubles nearest to one, two, three and four fifths.
pub proof fn lemma_floors_are_nearest_fifths()
    ensures
        nearest_to_fifths(NORMAL_FLOOR, 1),
        nearest_to_fifths(CAUTION_FLOOR, 2),
        nearest_to_fifths(ALERT_FLOOR, 3),
        nearest_to_fifths(HALT_FLOOR, 4),
{
    vstd::arithmetic::power2::lemma2_to64();
    lemma_nearest_fifth(NORMAL_FLOOR, 1, 0x19_9999_9999_999A, 1019, 8);
    lemma_nearest_fifth(CAUTION_FLOOR, 2, 0x19_9999_9999_999A, 1020, 4);
    lemma_nearest_fifth(ALERT_FLOOR, 3, 0x13_3333_3333_3333, 1021, 2);
    lemma_nearest_fifth(HALT_FLOOR, 4, 0x19_9999_9999_999A, 1021, 2);
}

/// Every score in `[0, 1]` has exactly one mode, the one whose band holds its value,
/// and no score outside `[0, 1]` has any.
pub proof fn lemma_partition_total(risk_score: Scalar)
    ensures
        partition(risk_score) is Some <==> unit_interval(risk_score.bits),
        partition(risk_score) == Some(Mode::Optimal) <==> unit_interval(risk_score.bits) && 0
            <= value(risk_score.bits) < value(NORMAL_FLOOR),
        partition(risk_score) == Some(Mode::Normal) <==> value(NORMAL_FLOOR) <= value(
            risk_score.bits,
        ) < value(CAUTION_FLOOR) && unit_interval(risk_score.bits),
        partition(risk_score) == Some(Mode::Caution) <==> value(CAUTION_FLOOR) <= value(
            risk_score.bits,
        ) < value(ALERT_FLOOR) && unit_interval(risk_score.bits),
        partition(risk_score) == Some(Mode::Alert) <==> value(ALERT_FLOOR) <= value(
            risk_score.bits,
        ) < value(HALT_FLOOR) && unit_interval(risk_score.bits),
        partition(risk_score) == Some(Mode::Halt) <==> value(HALT_FLOOR) <= value(
            risk_score.bits,
        ) <= value(ONE_BITS) && unit_interval(risk_score.bits),
{
    lemma_floors_in_unit_interval();
}

/// A higher risk score never has a lower mode.
pub proof fn lemma_partition_monotone(low: Scalar, high: Scalar)
    requires
        unit_interval(low.bits),
        unit_interval(high.bits),
        value(low.bits) <= value(high.bits),
    ensures
        mode_rank(partition(low)->0) <= mode_rank(partition(high)->0),
{
    lemma_floors_in_unit_interval();
}

/// The place of a mode in the order of rising risk.
pub open spec fn mode_rank(mode: Mode) -> nat {
    match mode {
        Mode::Optimal => 0,
        Mode::Normal => 1,
        Mode::Caution => 2,
        Mode::Alert => 3,
        Mode::Halt => 4,
    }
}

/// Mode and risk level correspond one to one: each mapping undoes the other.
pub proof fn lemma_mode_level_bijection(mode: Mode, level: RiskLevel)
    ensures
        mode_of(level_of(mode)) == mode,
        level_of(mode_of(level)) == level,
{
}

/// Two modes with the same level are the same mode, and every level is the level of a mode.
pub proof fn lemma_level_of_one_to_one(a: Mode, b: Mode, level: RiskLevel)
    ensures
        level_of(a) == level_of(b) ==> a == b,
        exists|m: Mode| level_of(m) == level,
{
    assert(level_of(mode_of(level)) == level);
}

/// On names the mapping is defined exactly for the five mode names, sends different mode
/// names to different level names, and reaches every level name.
pub proof fn lemma_level_name_bijection(a: Seq<char>, b: Seq<char>, level: RiskLevel)
    ensures
        level_name(a) is Some <==> (exists|m: Mode| a == m.spec_name()),
        level_name(a) is Some && level_name(a) == level_name(b) ==> a == b,
        level_name(mode_of(level).spec_name()) == Some(level.spec_name()),
{
    crate::schema::lemma_mode_names_distinct(mode_of(level));
    if level_name(a) is Some {
        let m = Mode::spec_from_name(a)->0;
        assert(a == m.spec_name());
        if level_name(a) == level_name(b) {
            let n = Mode::spec_from_name(b)->0;
            assert(b == n.spec_name());
            crate::schema::lemma_level_names_distinct(level_of(m));
            crate::schema::lemma_level_names_distinct(level_of(n));
        }
    }
    if exists|m: Mode| a == m.spec_name() {
        let m = choose|m: Mode| a == m.spec_name();
        crate::schema::lemma_mode_names_distinct(m);
    }
}

} // verus!
