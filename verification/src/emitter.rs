//! Assembly of a record from four function values and a timestamp.
//!
//! The inputs are screened in a fixed order and the first one that is no number
//! in `[0, 1]` is reported; no record is built in that case. Otherwise the two
//! scores are computed, the mode and the level follow from the risk score, and
//! the two version constants are stamped.

use vstd::prelude::*;
use crate::demo::{demo_risk_score, demo_stability_score, spec_risk_score, spec_stability_score};
use crate::invariants::{
    c1_holds, c2_holds, c3_holds, conforms, lemma_conforms, r1_holds, r2_holds, r3_holds,
    r4_holds, s1_holds, s3_holds, s4_holds,
};
use crate::mode::{level_of, mode_to_level, partition, risk_to_mode};
use crate::scalar::Scalar;
use crate::schema::{
    lemma_mode_names_distinct, lemma_names_not_empty, Functions, Mode, RecordView,
    RuntimeStateRecord, SCHEMA_VERSION, SPEC_VERSION,
};
use crate::version::{is_component, is_semver, splits_at};

verus! {

/// One of the four inputs of the emitter.
#[derive(Clone, Copy, Debug, PartialEq, Eq, Structural)]
pub enum InputField {
    Baseline,
    Norm,
    Stability,
    MetaControl,
}

impl InputField {
    /// The name of the input.
    pub open spec fn spec_name(self) -> Seq<char> {
        match self {
            InputField::Baseline => "baseline"@,
            InputField::Norm => "norm"@,
            InputField::Stability => "stability"@,
            InputField::MetaControl => "meta_control"@,
        }
    }

    /// The name of the input, as a string.
    pub fn name(self) -> (s: &'static str)
        ensures
            s@ == self.spec_name(),
    {
        match self {
            InputField::Baseline => "baseline",
            InputField::Norm => "norm",
            InputField::Stability => "stability",
            InputField::MetaControl => "meta_control",
        }
    }
}

/// Why no record was emitted.
#[derive(Clone, Copy, Debug, PartialEq)]
pub enum EmitError {
    /// The named input is a NaN or an infinity.
    NotFinite { field: InputField, value: Scalar },
    /// The named input is a finite number outside `[0, 1]`.
    OutOfRange { field: InputField, value: Scalar },
    /// The risk score has no mode: it is no number in `[0, 1]`.
    RiskScoreOutOfRange { risk_score: Scalar },
}

/// What is wrong with one input, if anything is.
pub open spec fn input_rejection(field: InputField, value: Scalar) -> Option<EmitError> {
    if value.spec_is_nan() || value.spec_is_infinite() {
        Some(EmitError::NotFinite { field, value })
    } else if !value.spec_in_unit_interval() {
        Some(EmitError::OutOfRange { field, value })
    } else {
        None
    }
}

/// What is wrong with the first input that is not acceptable, in the order baseline, norm,
/// stability, meta_control.
pub open spec fn first_rejection(f: Functions) -> Option<EmitError> {
    if input_rejection(InputField::Baseline, f.baseline) is Some {
        input_rejection(InputField::Baseline, f.baseline)
    } else if input_rejection(InputField::Norm, f.norm) is Some {
        input_rejection(InputField::Norm, f.norm)
    } else if input_rejection(InputField::Stability, f.stability) is Some {
        input_rejection(InputField::Stability, f.stability)
    } else {
        input_rejection(InputField::MetaControl, f.meta_control)
    }
}

/// The record that is assembled from function values, scores, a mode and a timestamp.
pub open spec fn assembled(
    functions: Functions,
    stability_score: Scalar,
    risk_score: Scalar,
    mode: Mode,
    timestamp: u64,
) -> RecordView {
    RecordView {
        spec_version: SPEC_VERSION@,
        schema_version: SCHEMA_VERSION@,
        timestamp,
        functions,
        stability_score,
        risk_score,
        mode: mode.spec_name(),
        risk_level: level_of(mode).spec_name(),
    }
}

/// The record that the emitter builds from acceptable function values.
pub open spec fn emitted(functions: Functions, timestamp: u64) -> RecordView {
    let stability_score = spec_stability_score(functions);
    let risk_score = spec_risk_score(stability_score);
    assembled(functions, stability_score, risk_score, partition(risk_score)->0, timestamp)
}

/// What the emitter returns for the given inputs at the given time.
pub open spec fn emission(functions: Functions, timestamp: u64) -> Result<RecordView, EmitError> {
    match first_rejection(functions) {
        Some(e) => Err(e),
        None => Ok(emitted(functions, timestamp)),
    }
}

/// Screens one input: a NaN or an infinity is reported as such, any other value outside
/// `[0, 1]` as out of range; either way with the name of the input and its value.
pub fn check_input(field: InputField, value: Scalar) -> (r: Result<(), EmitError>)
    ensures
        r is Ok <==> input_rejection(field, value) is None,
        r is Err ==> Some(r->Err_0) == input_rejection(field, value),
{
    if value.is_nan() || value.is_infinite() {
        return Err(EmitError::NotFinite { field, value });
    }
    if !value.in_unit_interval() {
        return Err(EmitError::OutOfRange { field, value });
    }
    Ok(())
}

/// Screens the four inputs in order and packs them; the first one rejected is reported.
pub fn accept_inputs(baseline: Scalar, norm: Scalar, stability: Scalar, meta_control: Scalar) -> (r:
    Result<Functions, EmitError>)
    ensures
        r is Ok <==> first_rejection(Functions { baseline, norm, stability, meta_control })
            is None,
        r is Ok ==> r->Ok_0 == (Functions { baseline, norm, stability, meta_control })
            && r->Ok_0.spec_in_range(),
        r is Err ==> Some(r->Err_0) == first_rejection(
            Functions { baseline, norm, stability, meta_control },
        ),
{
    match check_input(InputField::Baseline, baseline) {
        Err(e) => {
            return Err(e);
        },
        Ok(_) => {},
    }
    match check_input(InputField::Norm, norm) {
        Err(e) => {
            return Err(e);
        },
        Ok(_) => {},
    }
    match check_input(InputField::Stability, stability) {
        Err(e) => {
            return Err(e);
        },
        Ok(_) => {},
    }
    match check_input(InputField::MetaControl, meta_control) {
        Err(e) => {
            return Err(e);
        },
        Ok(_) => {},
    }
    Ok(Functions { baseline, norm, stability, meta_control })
}

/// Builds a record around function values and scores that were computed elsewhere. The mode
/// and the level follow from the risk score; a risk score that has no mode is reported and no
/// record is built.
pub fn assemble_record(
    functions: Functions,
    stability_score: Scalar,
    risk_score: Scalar,
    timestamp: u64,
) -> (r: Result<RuntimeStateRecord, EmitError>)
    ensures
        r is Ok <==> partition(risk_score) is Some,
        r is Ok ==> r->Ok_0@ == assembled(
            functions,
            stability_score,
            risk_score,
            partition(risk_score)->0,
            timestamp,
        ),
        r is Err ==> r->Err_0 == (EmitError::RiskScoreOutOfRange { risk_score }),
{
    let mode = match risk_to_mode(risk_score) {
        Some(m) => m,
        None => {
            return Err(EmitError::RiskScoreOutOfRange { risk_score });
        },
    };
    let level = mode_to_level(mode);
    Ok(
        RuntimeStateRecord {
            spec_version: SPEC_VERSION.to_owned(),
            schema_version: SCHEMA_VERSION.to_owned(),
            timestamp,
            functions,
            stability_score,
            risk_score,
            mode: mode.name().to_owned(),
            risk_level: level.name().to_owned(),
        },
    )
}

/// The layout version that the emitter stamps is a well-formed version.
pub proof fn lemma_schema_version_well_formed()
    ensures
        is_semver(SCHEMA_VERSION@),
        SCHEMA_VERSION@.len() > 0,
        SPEC_VERSION@.len() > 0,
{
    reveal_strlit("1.0.0");
    reveal_strlit("pmatrix-3.5");
    let s = SCHEMA_VERSION@;
    assert(s.len() == 5);
    assert(s.subrange(0, 1) =~= seq!['1']);
    assert(s.subrange(2, 3) =~= seq!['0']);
    assert(s.subrange(4, 5) =~= seq!['0']);
    assert(is_component(seq!['1']));
    assert(is_component(seq!['0']));
    assert(splits_at(s, 1, 3));
}

/// A record assembled around acceptable function values and scores in `[0, 1]` meets every
/// invariant but, where the timestamp is zero, the one on the timestamp.
pub proof fn lemma_assembled_conforms(
    functions: Functions,
    stability_score: Scalar,
    risk_score: Scalar,
    timestamp: u64,
)
    requires
        functions.spec_in_range(),
        stability_score.spec_in_unit_interval(),
        risk_score.spec_in_unit_interval(),
    ensures
        partition(risk_score) is Some,
        conforms(
            assembled(
                functions,
                stability_score,
                risk_score,
                partition(risk_score)->0,
                timestamp,
            ),
        ) <==> timestamp > 0,
{
    let mode = partition(risk_score)->0;
    let r = assembled(functions, stability_score, risk_score, mode, timestamp);
    lemma_schema_version_well_formed();
    lemma_names_not_empty(mode, level_of(mode));
    lemma_mode_names_distinct(mode);
    lemma_conforms(r);
    assert(r1_holds(r));
    assert(r2_holds(r));
    assert(r3_holds(r));
    assert(r4_holds(r) <==> timestamp > 0);
    assert(c1_holds(r));
    assert(c2_holds(r));
    assert(c3_holds(r));
    assert(s1_holds(r));
    assert(s3_holds(r));
    assert(s4_holds(r));
}

/// Builds the record for function values that have been screened: computes the two scores
/// and assembles the record around them. It always succeeds.
pub fn emit_screened(functions: Functions, timestamp: u64) -> (record: RuntimeStateRecord)
    requires
        functions.spec_in_range(),
    ensures
        record@ == emitted(functions, timestamp),
        first_rejection(functions) is None,
        conforms(record@) <==> timestamp > 0,
{
    let stability_score = demo_stability_score(&functions);
    let risk_score = demo_risk_score(stability_score);
    proof {
        lemma_assembled_conforms(functions, stability_score, risk_score, timestamp);
    }
    // a risk score in `[0, 1]` has a mode, so the assembly cannot fail
    assemble_record(functions, stability_score, risk_score, timestamp).unwrap()
}

/// The emitter at a given time: screens the inputs, computes the two scores and builds the
/// record. It succeeds exactly when every input is a number in `[0, 1]`.
pub fn emit_demo_record_at(
    baseline: Scalar,
    norm: Scalar,
    stability: Scalar,
    meta_control: Scalar,
    timestamp: u64,
) -> (r: Result<RuntimeStateRecord, EmitError>)
    ensures
        r is Ok <==> (Functions { baseline, norm, stability, meta_control }).spec_in_range(),
        r is Ok <==> emission(Functions { baseline, norm, stability, meta_control }, timestamp)
            is Ok,
        r is Ok ==> Ok::<RecordView, EmitError>(r->Ok_0@) == emission(
            Functions { baseline, norm, stability, meta_control },
            timestamp,
        ),
        r is Err ==> Err::<RecordView, EmitError>(r->Err_0) == emission(
            Functions { baseline, norm, stability, meta_control },
            timestamp,
        ),
        r is Ok ==> (conforms(r->Ok_0@) <==> timestamp > 0),
{
    match accept_inputs(baseline, norm, stability, meta_control) {
        Ok(functions) => Ok(emit_screened(functions, timestamp)),
        Err(e) => Err(e),
    }
}

} // verus!
