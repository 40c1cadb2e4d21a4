//! Runtime state records: the schema, the partition of risk scores into modes,
//! the twelve invariants that define conformance, and a reference emitter.

pub mod arith;
pub mod demo;
pub mod emitter;
pub mod invariants;
pub mod mode;
pub mod rounding;
pub mod scalar;
pub mod schema;
pub mod text;
pub mod version;

use vstd::prelude::*;
use emitter::{accept_inputs, emission, emit_screened, EmitError};
use invariants::{all_results, conforms, is_valid, validate_all, InvariantResult};
use scalar::Scalar;
use schema::{Functions, RecordView, RuntimeStateRecord};

verus! {

/// The system clock in whole seconds since the Unix epoch, by `SystemTime::now` of std.
/// A clock set before the epoch reads as zero. Nothing is claimed of the value.
#[verifier::external_body]
fn unix_seconds_now() -> (seconds: u64) {
    std::time::SystemTime::now().duration_since(std::time::UNIX_EPOCH).unwrap_or_default().as_secs()
}

/// Emits a record from four function values. The inputs are screened first: one that is no
/// number in `[0, 1]` is reported, no record is built and the clock is not read. Otherwise
/// the timestamp is the one given, or the reading of the system clock where none is given,
/// and the record is the one that `emit_demo_record_at` builds for that timestamp.
pub fn emit_demo_record(
    baseline: Scalar,
    norm: Scalar,
    stability: Scalar,
    meta_control: Scalar,
    timestamp: Option<u64>,
) -> (r: Result<RuntimeStateRecord, EmitError>)
    ensures
        r is Ok <==> (Functions { baseline, norm, stability, meta_control }).spec_in_range(),
        exists|seconds: u64|
            {
                &&& timestamp is Some ==> seconds == timestamp->0
                &&& r is Ok ==> Ok::<RecordView, EmitError>(r->Ok_0@) == #[trigger] emission(
                    Functions { baseline, norm, stability, meta_control },
                    seconds,
                )
                &&& r is Err ==> Err::<RecordView, EmitError>(r->Err_0) == emission(
                    Functions { baseline, norm, stability, meta_control },
                    seconds,
                )
                &&& r is Ok ==> (conforms(r->Ok_0@) <==> seconds > 0)
            },
{
    let functions = match accept_inputs(baseline, norm, stability, meta_control) {
        Ok(f) => f,
        Err(e) => {
            proof {
                let any: u64 = if timestamp is Some { timestamp->0 } else { 0 };
                assert(Err::<RecordView, EmitError>(e) == emission(
                    Functions { baseline, norm, stability, meta_control },
                    any,
                ));
            }
            return Err(e);
        },
    };
    let seconds: u64 = match timestamp {
        Some(t) => t,
        None => unix_seconds_now(),
    };
    let record = emit_screened(functions, seconds);
    proof {
        assert(Ok::<RecordView, EmitError>(record@) == emission(
            Functions { baseline, norm, stability, meta_control },
            seconds,
        ));
    }
    Ok(record)
}

/// The twelve results for a record, as `validate_all` gives them.
pub fn validate_record(record: &RuntimeStateRecord) -> (results: Vec<InvariantResult>)
    ensures
        results@.len() == 12,
        results@.len() == all_results(record@).len(),
        forall|i: int| 0 <= i < 12 ==> (#[trigger] results@[i])@ == all_results(record@)[i],
{
    validate_all(record)
}

/// Whether the record meets every invariant.
pub fn is_record_valid(record: &RuntimeStateRecord) -> (ok: bool)
    ensures
        ok == conforms(record@),
{
    is_valid(record)
}

} // verus!
