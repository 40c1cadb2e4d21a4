//! The twelve invariants of a runtime state record.
//!
//! Eleven are decided on one record; the twelfth speaks of a stream of records
//! and is decided by `validate_stream_t1`. Every check always runs and always
//! yields a result, so a caller sees every failure at once.

use vstd::prelude::*;
use crate::mode::{level_name, level_of, mode_to_level, partition, partition_name, risk_to_mode};
use crate::scalar::Scalar;
use crate::schema::{
    Functions, Mode, RecordView, RiskLevel, RuntimeStateRecord, SPEC_VERSION,
};
use crate::text::str_eq;
use crate::version::{is_semver, is_valid_schema_version};

verus! {

/// What a check found: the values it looked at and, where there is one, the value it expected.
#[derive(Clone, Debug, PartialEq)]
pub enum Detail {
    /// All four function values lie in `[0, 1]`.
    FunctionsInRange,
    /// At least one function value lies outside `[0, 1]` or is no number.
    FunctionsOutOfRange { functions: Functions },
    /// The stability score that was checked.
    StabilityScore { value: Scalar },
    /// The risk score that was checked.
    RiskScore { value: Scalar },
    /// The timestamp that was checked.
    Timestamp { seconds: u64 },
    /// The mode that the risk score calls for, and the mode found.
    ModeOfRisk { risk_score: Scalar, expected_mode: Option<Mode>, actual_mode: String },
    /// The level that the mode calls for, and the level found.
    LevelOfMode { mode: String, expected_level: Option<RiskLevel>, actual_level: String },
    /// Mode and level both follow from the risk score.
    Consistent,
    /// Mode or level does not follow from the risk score.
    Inconsistent,
    /// The check for required fields ran.
    RequiredFields,
    /// A decoded record has no field beyond the eight.
    NoExtraFields,
    /// The spec version found, and the one expected.
    SpecVersion { actual: String, expected: &'static str },
    /// The schema version found.
    SchemaVersion { actual: String },
    /// The check belongs to a stream and was not made on the record.
    StreamLevel,
}

/// A `Detail` with each string as its sequence of characters.
pub enum DetailView {
    FunctionsInRange,
    FunctionsOutOfRange { functions: Functions },
    StabilityScore { value: Scalar },
    RiskScore { value: Scalar },
    Timestamp { seconds: u64 },
    ModeOfRisk { risk_score: Scalar, expected_mode: Option<Mode>, actual_mode: Seq<char> },
    LevelOfMode { mode: Seq<char>, expected_level: Option<RiskLevel>, actual_level: Seq<char> },
    Consistent,
    Inconsistent,
    RequiredFields,
    NoExtraFields,
    SpecVersion { actual: Seq<char>, expected: Seq<char> },
    SchemaVersion { actual: Seq<char> },
    StreamLevel,
}

impl View for Detail {
    type V = DetailView;

    open spec fn view(&self) -> DetailView {
        match *self {
            Detail::FunctionsInRange => DetailView::FunctionsInRange,
            Detail::FunctionsOutOfRange { functions } => DetailView::FunctionsOutOfRange {
                functions,
            },
            Detail::StabilityScore { value } => DetailView::StabilityScore { value },
            Detail::RiskScore { value } => DetailView::RiskScore { value },
            Detail::Timestamp { seconds } => DetailView::Timestamp { seconds },
            Detail::ModeOfRisk { risk_score, expected_mode, actual_mode } => {
                DetailView::ModeOfRisk { risk_score, expected_mode, actual_mode: actual_mode@ }
            },
            Detail::LevelOfMode { mode, expected_level, actual_level } => {
                DetailView::LevelOfMode {
                    mode: mode@,
                    expected_level,
                    actual_level: actual_level@,
                }
            },
            Detail::Consistent => DetailView::Consistent,
            Detail::Inconsistent => DetailView::Inconsistent,
            Detail::RequiredFields => DetailView::RequiredFields,
            Detail::NoExtraFields => DetailView::NoExtraFields,
            Detail::SpecVersion { actual, expected } => DetailView::SpecVersion {
                actual: actual@,
                expected: expected@,
            },
            Detail::SchemaVersion { actual } => DetailView::SchemaVersion { actual: actual@ },
            Detail::StreamLevel => DetailView::StreamLevel,
        }
    }
}

/// The outcome of one check.
#[derive(Clone, Debug, PartialEq)]
pub struct InvariantResult {
    /// The stable identifier of the invariant.
    pub id: &'static str,
    /// Whether the record meets the invariant.
    pub passed: bool,
    /// What the check looked at.
    pub detail: Detail,
}

/// An `InvariantResult` with each string as its sequence of characters.
pub struct ResultView {
    pub id: Seq<char>,
    pub passed: bool,
    pub detail: DetailView,
}

impl View for InvariantResult {
    type V = ResultView;

    open spec fn view(&self) -> ResultView {
        ResultView { id: self.id@, passed: self.passed, detail: self.detail@ }
    }
}

/// Range: the four function values lie in `[0, 1]`.
pub open spec fn r1_holds(r: RecordView) -> bool {
    r.functions.spec_in_range()
}

/// Range: the stability score lies in `[0, 1]`.
pub open spec fn r2_holds(r: RecordView) -> bool {
    r.stability_score.spec_in_unit_interval()
}

/// Range: the risk score lies in `[0, 1]`.
pub open spec fn r3_holds(r: RecordView) -> bool {
    r.risk_score.spec_in_unit_interval()
}

/// Range: the timestamp is positive.
pub open spec fn r4_holds(r: RecordView) -> bool {
    r.timestamp > 0
}

/// Consistency: the mode is the one that the risk score calls for.
pub open spec fn c1_holds(r: RecordView) -> bool {
    partition_name(r.risk_score) == Some(r.mode)
}

/// Consistency: the risk level is the one that the mode calls for.
pub open spec fn c2_holds(r: RecordView) -> bool {
    level_name(r.mode) == Some(r.risk_level)
}

/// Consistency: mode and level both follow from the risk score.
pub open spec fn c3_holds(r: RecordView) -> bool {
    c1_holds(r) && c2_holds(r)
}

/// Structure: none of the four strings is empty.
pub open spec fn s1_holds(r: RecordView) -> bool {
    &&& r.spec_version.len() > 0
    &&& r.schema_version.len() > 0
    &&& r.mode.len() > 0
    &&& r.risk_level.len() > 0
}

/// Structure: the spec version is the current one, character for character.
pub open spec fn s3_holds(r: RecordView) -> bool {
    r.spec_version == SPEC_VERSION@
}

/// Structure: the schema version is three dot-separated numbers.
pub open spec fn s4_holds(r: RecordView) -> bool {
    is_semver(r.schema_version)
}

/// The level that the named mode calls for, if the name is a mode's.
pub open spec fn expected_level(mode: Seq<char>) -> Option<RiskLevel> {
    match Mode::spec_from_name(mode) {
        Some(m) => Some(level_of(m)),
        None => None,
    }
}

/// The result of the range check on the four function values.
pub open spec fn inv_r1(r: RecordView) -> ResultView {
    ResultView {
        id: "INV-R1"@,
        passed: r1_holds(r),
        detail: if r1_holds(r) {
            DetailView::FunctionsInRange
        } else {
            DetailView::FunctionsOutOfRange { functions: r.functions }
        },
    }
}

/// The result of the range check on the stability score.
pub open spec fn inv_r2(r: RecordView) -> ResultView {
    ResultView {
        id: "INV-R2"@,
        passed: r2_holds(r),
        detail: DetailView::StabilityScore { value: r.stability_score },
    }
}

/// The result of the range check on the risk score.
pub open spec fn inv_r3(r: RecordView) -> ResultView {
    ResultView {
        id: "INV-R3"@,
        passed: r3_holds(r),
        detail: DetailView::RiskScore { value: r.risk_score },
    }
}

/// The result of the check on the timestamp.
pub open spec fn inv_r4(r: RecordView) -> ResultView {
    ResultView {
        id: "INV-R4"@,
        passed: r4_holds(r),
        detail: DetailView::Timestamp { seconds: r.timestamp },
    }
}

/// The result of the check of the mode against the risk score.
pub open spec fn inv_c1(r: RecordView) -> ResultView {
    ResultView {
        id: "INV-C1"@,
        passed: c1_holds(r),
        detail: DetailView::ModeOfRisk {
            risk_score: r.risk_score,
            expected_mode: partition(r.risk_score),
            actual_mode: r.mode,
        },
    }
}

/// The result of the check of the risk level against the mode.
pub open spec fn inv_c2(r: RecordView) -> ResultView {
    ResultView {
        id: "INV-C2"@,
        passed: c2_holds(r),
        detail: DetailView::LevelOfMode {
            mode: r.mode,
            expected_level: expected_level(r.mode),
            actual_level: r.risk_level,
        },
    }
}

/// The result of the derived consistency check.
pub open spec fn inv_c3(r: RecordView) -> ResultView {
    ResultView {
        id: "INV-C3"@,
        passed: c3_holds(r),
        detail: if c3_holds(r) {
            DetailView::Consistent
        } else {
            DetailView::Inconsistent
        },
    }
}

/// The result of the check for empty strings.
pub open spec fn inv_s1(r: RecordView) -> ResultView {
    ResultView { id: "INV-S1"@, passed: s1_holds(r), detail: DetailView::RequiredFields }
}

/// The result of the check for extra fields: a decoded record has none.
pub open spec fn inv_s2(r: RecordView) -> ResultView {
    ResultView { id: "INV-S2"@, passed: true, detail: DetailView::NoExtraFields }
}

/// The result of the check on the spec version.
pub open spec fn inv_s3(r: RecordView) -> ResultView {
    ResultView {
        id: "INV-S3"@,
        passed: s3_holds(r),
        detail: DetailView::SpecVersion { actual: r.spec_version, expected: SPEC_VERSION@ },
    }
}

/// The result of the check on the schema version.
pub open spec fn inv_s4(r: RecordView) -> ResultView {
    ResultView {
        id: "INV-S4"@,
        passed: s4_holds(r),
        detail: DetailView::SchemaVersion { actual: r.schema_version },
    }
}

/// The note that stands for the stream-level check in the results of one record.
pub open spec fn inv_t1_note() -> ResultView {
    ResultView { id: "INV-T1"@, passed: true, detail: DetailView::StreamLevel }
}

/// The twelve results for a record, in their fixed order.
pub open spec fn all_results(r: RecordView) -> Seq<ResultView> {
    seq![
        inv_r1(r),
        inv_r2(r),
        inv_r3(r),
        inv_r4(r),
        inv_c1(r),
        inv_c2(r),
        inv_c3(r),
        inv_s1(r),
        inv_s2(r),
        inv_s3(r),
        inv_s4(r),
        inv_t1_note(),
    ]
}

/// A record conforms when every one of its twelve results passes.
pub open spec fn conforms(r: RecordView) -> bool {
    forall|i: int| 0 <= i < all_results(r).len() ==> (#[trigger] all_results(r)[i]).passed
}

/// INV-R1: all four function values lie in `[0, 1]`.
pub fn check_inv_r1(r: &RuntimeStateRecord) -> (res: InvariantResult)
    ensures
        res@ == inv_r1(r@),
{
    let f = r.functions;
    let ok = f.in_range();
    InvariantResult {
        id: "INV-R1",
        passed: ok,
        detail: if ok {
            Detail::FunctionsInRange
        } else {
            Detail::FunctionsOutOfRange { functions: f }
        },
    }
}

/// INV-R2: the stability score lies in `[0, 1]`.
pub fn check_inv_r2(r: &RuntimeStateRecord) -> (res: InvariantResult)
    ensures
        res@ == inv_r2(r@),
{
    let ok = r.stability_score.in_unit_interval();
    InvariantResult {
        id: "INV-R2",
        passed: ok,
        detail: Detail::StabilityScore { value: r.stability_score },
    }
}

/// INV-R3: the risk score lies in `[0, 1]`.
pub fn check_inv_r3(r: &RuntimeStateRecord) -> (res: InvariantResult)
    ensures
        res@ == inv_r3(r@),
{
    let ok = r.risk_score.in_unit_interval();
    InvariantResult { id: "INV-R3", passed: ok, detail: Detail::RiskScore { value: r.risk_score } }
}

/// INV-R4: the timestamp is positive.
pub fn check_inv_r4(r: &RuntimeStateRecord) -> (res: InvariantResult)
    ensures
        res@ == inv_r4(r@),
{
    let ok = r.timestamp > 0;
    InvariantResult { id: "INV-R4", passed: ok, detail: Detail::Timestamp { seconds: r.timestamp } }
}

/// INV-C1: the mode is the one that the risk score calls for.
pub fn check_inv_c1(r: &RuntimeStateRecord) -> (res: InvariantResult)
    ensures
        res@ == inv_c1(r@),
{
    let expected = risk_to_mode(r.risk_score);
    let ok = match expected {
        Some(m) => str_eq(m.name(), r.mode.as_str()),
        None => false,
    };
    InvariantResult {
        id: "INV-C1",
        passed: ok,
        detail: Detail::ModeOfRisk {
            risk_score: r.risk_score,
            expected_mode: expected,
            actual_mode: r.mode.clone(),
        },
    }
}

/// INV-C2: the risk level is the one that the mode calls for.
pub fn check_inv_c2(r: &RuntimeStateRecord) -> (res: InvariantResult)
    ensures
        res@ == inv_c2(r@),
{
    let expected = match Mode::from_name(r.mode.as_str()) {
        Some(m) => Some(mode_to_level(m)),
        None => None,
    };
    let ok = match expected {
        Some(l) => str_eq(l.name(), r.risk_level.as_str()),
        None => false,
    };
    InvariantResult {
        id: "INV-C2",
        passed: ok,
        detail: Detail::LevelOfMode {
            mode: r.mode.clone(),
            expected_level: expected,
            actual_level: r.risk_level.clone(),
        },
    }
}

/// INV-C3: both INV-C1 and INV-C2 hold.
pub fn check_inv_c3(r: &RuntimeStateRecord) -> (res: InvariantResult)
    ensures
        res@ == inv_c3(r@),
{
    let c1 = check_inv_c1(r).passed;
    let c2 = check_inv_c2(r).passed;
    let ok = c1 && c2;
    InvariantResult {
        id: "INV-C3",
        passed: ok,
        detail: if ok {
            Detail::Consistent
        } else {
            Detail::Inconsistent
        },
    }
}

/// INV-S1: none of the four strings is empty.
pub fn check_inv_s1(r: &RuntimeStateRecord) -> (res: InvariantResult)
    ensures
        res@ == inv_s1(r@),
{
    let ok = !r.spec_version.as_str().is_empty() && !r.schema_version.as_str().is_empty()
        && !r.mode.as_str().is_empty() && !r.risk_level.as_str().is_empty();
    InvariantResult { id: "INV-S1", passed: ok, detail: Detail::RequiredFields }
}

/// INV-S2: no field beyond the eight. A record that was decoded has none, so this passes.
pub fn check_inv_s2(r: &RuntimeStateRecord) -> (res: InvariantResult)
    ensures
        res@ == inv_s2(r@),
{
    InvariantResult { id: "INV-S2", passed: true, detail: Detail::NoExtraFields }
}

/// INV-S3: the spec version is the current one.
pub fn check_inv_s3(r: &RuntimeStateRecord) -> (res: InvariantResult)
    ensures
        res@ == inv_s3(r@),
{
    let ok = str_eq(r.spec_version.as_str(), SPEC_VERSION);
    InvariantResult {
        id: "INV-S3",
        passed: ok,
        detail: Detail::SpecVersion { actual: r.spec_version.clone(), expected: SPEC_VERSION },
    }
}

/// INV-S4: the schema version is three dot-separated numbers.
pub fn check_inv_s4(r: &RuntimeStateRecord) -> (res: InvariantResult)
    ensures
        res@ == inv_s4(r@),
{
    let ok = is_valid_schema_version(r.schema_version.as_str());
    InvariantResult {
        id: "INV-S4",
        passed: ok,
        detail: Detail::SchemaVersion { actual: r.schema_version.clone() },
    }
}

/// INV-T1 on one record: a passing note that points to the stream-level check.
pub fn check_inv_t1_note() -> (res: InvariantResult)
    ensures
        res@ == inv_t1_note(),
{
    InvariantResult { id: "INV-T1", passed: true, detail: Detail::StreamLevel }
}

/// All twelve checks on one record, in their fixed order. Every check runs, whatever the
/// others find.
pub fn validate_all(record: &RuntimeStateRecord) -> (results: Vec<InvariantResult>)
    ensures
        results@.len() == 12,
        results@.len() == all_results(record@).len(),
        forall|i: int| 0 <= i < 12 ==> (#[trigger] results@[i])@ == all_results(record@)[i],
{
    let mut results: Vec<InvariantResult> = Vec::new();
    results.push(check_inv_r1(record));
    results.push(check_inv_r2(record));
    results.push(check_inv_r3(record));
    results.push(check_inv_r4(record));
    results.push(check_inv_c1(record));
    results.push(check_inv_c2(record));
    results.push(check_inv_c3(record));
    results.push(check_inv_s1(record));
    results.push(check_inv_s2(record));
    results.push(check_inv_s3(record));
    results.push(check_inv_s4(record));
    results.push(check_inv_t1_note());
    results
}

/// Whether the record conforms: whether every one of the twelve checks passes.
pub fn is_valid(record: &RuntimeStateRecord) -> (ok: bool)
    ensures
        ok == conforms(record@),
{
    let results = validate_all(record);
    let n: usize = results.len();
    let mut i: usize = 0;
    while i < n
        invariant
            n == 12,
            i <= n,
            results@.len() == 12,
            forall|k: int| 0 <= k < 12 ==> (#[trigger] results@[k])@ == all_results(record@)[k],
            forall|k: int| 0 <= k < i ==> (#[trigger] all_results(record@)[k]).passed,
        decreases n - i,
    {
        if !results[i].passed {
            assert(!all_results(record@)[i as int].passed);
            return false;
        }
        i += 1;
    }
    true
}

/// The timestamps of a stream never fall: none is below the one before it.
pub open spec fn timestamps_never_fall(records: Seq<RuntimeStateRecord>) -> bool {
    forall|k: int| 1 <= k < records.len() ==> (#[trigger] records[k]).timestamp >= records[k
        - 1].timestamp
}

/// `i` is the first place in the stream where the timestamp falls below the one before it.
pub open spec fn first_fall(records: Seq<RuntimeStateRecord>, i: int) -> bool {
    &&& 1 <= i < records.len()
    &&& records[i].timestamp < records[i - 1].timestamp
    &&& timestamps_never_fall(records.subrange(0, i))
}

/// INV-T1 on a stream in emission order: the index of the first record whose timestamp is
/// below its predecessor's, or `None` if there is no such record. Equal timestamps may follow
/// one another.
pub fn validate_stream_t1(records: &[RuntimeStateRecord]) -> (violation: Option<usize>)
    ensures
        violation is None <==> timestamps_never_fall(records@),
        violation is Some ==> first_fall(records@, violation->0 as int),
{
    let n: usize = records.len();
    let mut i: usize = 1;
    while i < n
        invariant
            n == records@.len(),
            1 <= i,
            i <= n || n == 0,
            forall|k: int| 1 <= k < i && k < n ==> (#[trigger] records@[k]).timestamp >= records@[k
                - 1].timestamp,
        decreases n - i,
    {
        if records[i].timestamp < records[i - 1].timestamp {
            proof {
                let prefix = records@.subrange(0, i as int);
                assert forall|k: int| 1 <= k < prefix.len() implies (#[trigger] prefix[k]).timestamp
                    >= prefix[k - 1].timestamp by {
                    assert(prefix[k] == records@[k]);
                    assert(prefix[k - 1] == records@[k - 1]);
                }
            }
            return Some(i);
        }
        i += 1;
    }
    None
}

/// A stream has at most one first fall, so the index that `validate_stream_t1` returns is
/// the only one that its contract admits.
pub proof fn lemma_first_fall_unique(records: Seq<RuntimeStateRecord>, i: int, j: int)
    requires
        first_fall(records, i),
        first_fall(records, j),
    ensures
        i == j,
{
    if i < j {
        let prefix = records.subrange(0, j);
        assert(prefix[i] == records[i]);
        assert(prefix[i - 1] == records[i - 1]);
        assert(prefix[i].timestamp >= prefix[i - 1].timestamp);
    }
    if j < i {
        let prefix = records.subrange(0, i);
        assert(prefix[j] == records[j]);
        assert(prefix[j - 1] == records[j - 1]);
        assert(prefix[j].timestamp >= prefix[j - 1].timestamp);
    }
}

/// A record conforms exactly when each of the ten deciding invariants holds of it.
pub proof fn lemma_conforms(r: RecordView)
    ensures
        conforms(r) <==> {
            &&& r1_holds(r)
            &&& r2_holds(r)
            &&& r3_holds(r)
            &&& r4_holds(r)
            &&& c1_holds(r)
            &&& c2_holds(r)
            &&& c3_holds(r)
            &&& s1_holds(r)
            &&& s3_holds(r)
            &&& s4_holds(r)
        },
{
    let all = all_results(r);
    if conforms(r) {
        assert(all[0].passed);
        assert(all[1].passed);
        assert(all[2].passed);
        assert(all[3].passed);
        assert(all[4].passed);
        assert(all[5].passed);
        assert(all[6].passed);
        assert(all[7].passed);
        assert(all[9].passed);
        assert(all[10].passed);
    }
}

/// Each check reads only its own fields: two records that agree on the fields of a check get
/// the same result from it. So a change to one field can move only the checks that read it.
pub proof fn lemma_checks_read_their_fields(a: RecordView, b: RecordView)
    ensures
        a.functions == b.functions ==> inv_r1(a) == inv_r1(b),
        a.stability_score == b.stability_score ==> inv_r2(a) == inv_r2(b),
        a.risk_score == b.risk_score ==> inv_r3(a) == inv_r3(b),
        a.timestamp == b.timestamp ==> inv_r4(a) == inv_r4(b),
        a.risk_score == b.risk_score && a.mode == b.mode ==> inv_c1(a) == inv_c1(b),
        a.mode == b.mode && a.risk_level == b.risk_level ==> inv_c2(a) == inv_c2(b),
        a.risk_score == b.risk_score && a.mode == b.mode && a.risk_level == b.risk_level
            ==> inv_c3(a) == inv_c3(b),
        a.spec_version.len() == b.spec_version.len() && a.schema_version.len()
            == b.schema_version.len() && a.mode.len() == b.mode.len() && a.risk_level.len()
            == b.risk_level.len() ==> inv_s1(a) == inv_s1(b),
        inv_s2(a) == inv_s2(b),
        a.spec_version == b.spec_version ==> inv_s3(a) == inv_s3(b),
        a.schema_version == b.schema_version ==> inv_s4(a) == inv_s4(b),
{
}

/// A change of the timestamp alone moves no result but that of INV-R4, which then passes
/// exactly when the new timestamp is positive.
pub proof fn lemma_timestamp_isolated(r: RecordView, timestamp: u64)
    ensures
        forall|i: int|
            0 <= i < 12 && i != 3 ==> #[trigger] all_results(RecordView { timestamp, ..r })[i]
                == all_results(r)[i],
        all_results(RecordView { timestamp, ..r })[3].passed == (timestamp > 0),
{
}

/// A change of the function values alone moves no result but that of INV-R1.
pub proof fn lemma_functions_isolated(r: RecordView, functions: Functions)
    ensures
        forall|i: int|
            0 <= i < 12 && i != 0 ==> #[trigger] all_results(RecordView { functions, ..r })[i]
                == all_results(r)[i],
{
}

/// A change of the stability score alone moves no result but that of INV-R2.
pub proof fn lemma_stability_score_isolated(r: RecordView, stability_score: Scalar)
    ensures
        forall|i: int|
            0 <= i < 12 && i != 1 ==> #[trigger] all_results(
                RecordView { stability_score, ..r },
            )[i] == all_results(r)[i],
{
}

/// A change of the risk score alone moves no result but those of INV-R3, INV-C1 and INV-C3.
pub proof fn lemma_risk_score_isolated(r: RecordView, risk_score: Scalar)
    ensures
        forall|i: int|
            0 <= i < 12 && i != 2 && i != 4 && i != 6 ==> #[trigger] all_results(
                RecordView { risk_score, ..r },
            )[i] == all_results(r)[i],
{
}

/// A change of the mode alone moves no result but those of the three consistency checks and
/// of INV-S1.
pub proof fn lemma_mode_isolated(r: RecordView, mode: Seq<char>)
    ensures
        forall|i: int|
            0 <= i < 12 && i != 4 && i != 5 && i != 6 && i != 7 ==> #[trigger] all_results(
                RecordView { mode, ..r },
            )[i] == all_results(r)[i],
{
}

/// A change of the risk level alone moves no result but those of INV-C2, INV-C3 and INV-S1.
pub proof fn lemma_risk_level_isolated(r: RecordView, risk_level: Seq<char>)
    ensures
        forall|i: int|
            0 <= i < 12 && i != 5 && i != 6 && i != 7 ==> #[trigger] all_results(
                RecordView { risk_level, ..r },
            )[i] == all_results(r)[i],
{
}

/// A change of the spec version alone moves no result but those of INV-S1 and INV-S3.
pub proof fn lemma_spec_version_isolated(r: RecordView, spec_version: Seq<char>)
    ensures
        forall|i: int|
            0 <= i < 12 && i != 7 && i != 9 ==> #[trigger] all_results(
                RecordView { spec_version, ..r },
            )[i] == all_results(r)[i],
{
}

/// A change of the schema version alone moves no result but those of INV-S1 and INV-S4.
pub proof fn lemma_schema_version_isolated(r: RecordView, schema_version: Seq<char>)
    ensures
        forall|i: int|
            0 <= i < 12 && i != 7 && i != 10 ==> #[trigger] all_results(
                RecordView { schema_version, ..r },
            )[i] == all_results(r)[i],
{
}

} // verus!
