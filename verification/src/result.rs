//! What a stage reports: its result and the errors it met.

use vstd::prelude::*;
use crate::clock::Timestamp;
use crate::value::{entries_view, DataValue, Json};

verus! {

/// Mathematical model of a recorded error.
pub struct ErrorModel {
    pub error_type: Seq<char>,
    pub message: Seq<char>,
    pub record_id: Option<Seq<char>>,
    pub timestamp: Timestamp,
    pub context: Seq<(Seq<char>, Json)>,
}

/// An issue met while a stage ran. It is recorded and does not stop the
/// job.
#[derive(Debug, PartialEq)]
pub struct ProcessingError {
    /// The kind of error.
    pub error_type: String,
    pub message: String,
    /// The record that the error is about, if it is about one.
    pub record_id: Option<String>,
    pub timestamp: Timestamp,
    pub context: Vec<(String, DataValue)>,
}

impl View for ProcessingError {
    type V = ErrorModel;

    open spec fn view(&self) -> ErrorModel {
        ErrorModel {
            error_type: self.error_type@,
            message: self.message@,
            record_id: match self.record_id {
                Some(id) => Some(id@),
                None => None,
            },
            timestamp: self.timestamp,
            context: entries_view(self.context@),
        }
    }
}

/// The models of a sequence of errors.
pub open spec fn errors_view(errors: Seq<ProcessingError>) -> Seq<ErrorModel> {
    Seq::new(errors.len(), |i: int| errors[i]@)
}

/// Appending an error appends its model.
pub proof fn lemma_errors_view_push(errors: Seq<ProcessingError>, e: ProcessingError)
    ensures
        errors_view(errors.push(e)) == errors_view(errors).push(e@),
{
    assert(errors_view(errors.push(e)) =~= errors_view(errors).push(e@));
}

/// The outcome of one stage.
#[derive(Debug, PartialEq)]
pub struct ProcessingResult {
    /// The label of the operation.
    pub operation: String,
    /// How many records the stage handed on.
    pub records_processed: usize,
    /// Wall time that the stage took, in milliseconds.
    pub execution_time_ms: u128,
    /// An estimate of the memory that the handed-on records take.
    pub memory_used_bytes: usize,
    /// The errors met, record by record.
    pub errors: Vec<ProcessingError>,
    pub metadata: Vec<(String, DataValue)>,
}

/// What one record is taken to occupy, in bytes, for the memory estimate.
pub const RECORD_FOOTPRINT: usize = 128;

/// The memory estimate for a number of records: the footprint of each, or
/// the largest number where the product is larger.
pub open spec fn memory_estimate(records: int) -> int {
    if records * RECORD_FOOTPRINT <= usize::MAX {
        records * RECORD_FOOTPRINT
    } else {
        usize::MAX as int
    }
}

impl ProcessingResult {
    /// The result of a stage that handed on `records` records and ran from
    /// `started` to `finished`.
    pub fn new(
        operation: String,
        records: usize,
        started: Timestamp,
        finished: Timestamp,
        errors: Vec<ProcessingError>,
    ) -> (r: ProcessingResult)
        ensures
            r.operation == operation,
            r.records_processed == records,
            r.execution_time_ms == if started.millis_until(finished) > 0 {
                started.millis_until(finished)
            } else {
                0
            },
            r.memory_used_bytes == memory_estimate(records as int),
            r.errors == errors,
            r.metadata@.len() == 0,
    {
        let memory = match records.checked_mul(RECORD_FOOTPRINT) {
            Some(m) => m,
            None => usize::MAX,
        };
        ProcessingResult {
            operation,
            records_processed: records,
            execution_time_ms: started.elapsed_ms(&finished),
            memory_used_bytes: memory,
            errors,
            metadata: Vec::new(),
        }
    }
}

} // verus!
