//! Running a job's pipeline: the operations in order, each on the output
//! of the one before, with a result for each.

use vstd::prelude::*;
use crate::clock::Timestamp;
use crate::config::Operation;
use crate::error::{Missing, ProcessorError};
use crate::job::ProcessingJob;
use crate::ops::{
    apply_operation, drawn_from, execute_operation, lemma_operation_keeps_origins, originates, same_origin,
    stage_errors, StageOutput,
};
use crate::record::{duplicate_records, records_view, DataRecord, Record};
use crate::result::{errors_view, memory_estimate, ProcessingResult};
use crate::store::RecordStore;

verus! {

/// The input of a job: the set that was stored first, unless the store is
/// empty or that set is.
pub open spec fn input_of(store: Seq<(Seq<char>, Seq<Record>)>) -> Option<Seq<Record>> {
    if store.len() > 0 && store[0].1.len() > 0 {
        Some(store[0].1)
    } else {
        None
    }
}

/// What the first `n` operations make of the input, each working on the
/// output of the one before; nothing where one of them makes nothing.
pub open spec fn run_prefix(
    operations: Seq<Operation>,
    input: Seq<Record>,
    store: Seq<(Seq<char>, Seq<Record>)>,
    n: int,
) -> Option<Seq<Record>>
    decreases n,
{
    if n <= 0 {
        Some(input)
    } else {
        match run_prefix(operations, input, store, n - 1) {
            Some(records) => if n <= operations.len() {
                apply_operation(operations[n - 1], records, store)
            } else {
                None
            },
            None => None,
        }
    }
}

/// Where a prefix of the pipeline makes nothing, no longer prefix makes
/// anything.
pub proof fn lemma_prefix_fails(
    operations: Seq<Operation>,
    input: Seq<Record>,
    store: Seq<(Seq<char>, Seq<Record>)>,
    n: int,
    m: int,
)
    requires
        run_prefix(operations, input, store, n) is None,
        n <= m,
    ensures
        run_prefix(operations, input, store, m) is None,
    decreases m - n,
{
    if n < m {
        lemma_prefix_fails(operations, input, store, n, m - 1);
    }
}

/// No pipeline makes up a record or changes where a record came from:
/// every record that its first `n` operations hand on has the identifier,
/// the source and the instant of creation of one of the input's records.
pub proof fn lemma_pipeline_keeps_origins(
    operations: Seq<Operation>,
    input: Seq<Record>,
    store: Seq<(Seq<char>, Seq<Record>)>,
    n: int,
)
    requires
        run_prefix(operations, input, store, n) is Some,
    ensures
        drawn_from(run_prefix(operations, input, store, n).unwrap(), input),
    decreases n,
{
    if n <= 0 {
        assert forall|i: int| 0 <= i < input.len() implies originates(#[trigger] input[i], input) by {
            assert(same_origin(input[i], input[i]));
        }
    } else {
        let before = run_prefix(operations, input, store, n - 1).unwrap();
        let after = run_prefix(operations, input, store, n).unwrap();
        lemma_pipeline_keeps_origins(operations, input, store, n - 1);
        lemma_operation_keeps_origins(operations[n - 1], before, store);
        assert forall|i: int| 0 <= i < after.len() implies originates(#[trigger] after[i], input) by {
            assert(originates(after[i], before));
            let j = choose|j: int| 0 <= j < before.len() && same_origin(after[i], #[trigger] before[j]);
            assert(originates(before[j], input));
            let k = choose|k: int| 0 <= k < input.len() && same_origin(before[j], #[trigger] input[k]);
            assert(same_origin(after[i], input[k]));
        }
    }
}

/// What the whole pipeline makes of the input.
pub open spec fn run_pipeline(
    operations: Seq<Operation>,
    input: Seq<Record>,
    store: Seq<(Seq<char>, Seq<Record>)>,
) -> Option<Seq<Record>> {
    run_prefix(operations, input, store, operations.len() as int)
}

/// Whether a result is that of the operation run on `before` with output
/// `after`: all of it but the time that the stage took, which the clock
/// decides.
pub open spec fn stage_matches(
    result: ProcessingResult,
    operation: Operation,
    before: Seq<Record>,
    after: Seq<Record>,
    now: Timestamp,
) -> bool {
    &&& result.operation@ == operation.label_spec()
    &&& result.records_processed == after.len()
    &&& result.memory_used_bytes == memory_estimate(after.len() as int)
    &&& errors_view(result.errors@) == stage_errors(operation, before, now)
    &&& result.metadata@.len() == 0
}

/// Whether the result at position `i` is that of the operation at position
/// `i`, run on what the operations before it made of the input.
pub open spec fn stage_ok(
    results: Seq<ProcessingResult>,
    operations: Seq<Operation>,
    input: Seq<Record>,
    store: Seq<(Seq<char>, Seq<Record>)>,
    now: Timestamp,
    i: int,
) -> bool {
    &&& run_prefix(operations, input, store, i) is Some
    &&& run_prefix(operations, input, store, i + 1) is Some
    &&& stage_matches(
        results[i],
        operations[i],
        run_prefix(operations, input, store, i).unwrap(),
        run_prefix(operations, input, store, i + 1).unwrap(),
        now,
    )
}

/// Whether the results are those of the first operations of the pipeline,
/// one for each, in order.
pub open spec fn results_match(
    results: Seq<ProcessingResult>,
    operations: Seq<Operation>,
    input: Seq<Record>,
    store: Seq<(Seq<char>, Seq<Record>)>,
    now: Timestamp,
) -> bool {
    &&& results.len() <= operations.len()
    &&& forall|i: int|
        0 <= i < results.len() ==> #[trigger] stage_ok(results, operations, input, store, now, i)
}

/// Whether a job that started at `started` has, at `now`, run longer than
/// `timeout_seconds`. Zero seconds set no bound.
pub open spec fn timed_out(started: Timestamp, now: Timestamp, timeout_seconds: u64) -> bool {
    timeout_seconds > 0 && started.millis_until(now) > timeout_seconds * 1000
}

/// Decides whether a job has run longer than its bound.
pub fn is_timed_out(started: &Timestamp, now: &Timestamp, timeout_seconds: u64) -> (r: bool)
    ensures
        r == timed_out(*started, *now, timeout_seconds),
{
    timeout_seconds > 0 && started.elapsed_ms(now) > (timeout_seconds as u128) * 1000
}

/// Runs one stage, given the instant `instant` that the clock read before
/// it: fails with `Timeout`, without running the operation, if and only if
/// the job, which started at `started`, has by then run longer than
/// `timeout_seconds`; else it is the operation's outcome, as
/// `execute_operation` gives it.
pub fn execute_stage(
    operation: &Operation,
    data: Vec<DataRecord>,
    store: &RecordStore,
    now: Timestamp,
    started: Timestamp,
    instant: Timestamp,
    timeout_seconds: u64,
) -> (r: Result<StageOutput, ProcessorError>)
    ensures
        if timed_out(started, instant, timeout_seconds) {
            r matches Err(ProcessorError::Timeout)
        } else {
            match r {
                Ok(out) => apply_operation(*operation, records_view(data@), store@) == Some(
                    records_view(out.records@),
                ) && errors_view(out.errors@) == stage_errors(*operation, records_view(data@), now),
                Err(e) => e == ProcessorError::NotFound(Missing::Source) && apply_operation(
                    *operation,
                    records_view(data@),
                    store@,
                ) is None,
            }
        },
{
    if is_timed_out(&started, &instant, timeout_seconds) {
        Err(ProcessorError::Timeout)
    } else {
        execute_operation(operation, data, store, now)
    }
}

/// What a job's pipeline made: a result for each operation, and the final
/// records.
#[derive(Debug, PartialEq)]
pub struct JobOutput {
    pub results: Vec<ProcessingResult>,
    pub records: Vec<DataRecord>,
    /// How many records the pipeline started with.
    pub input_count: usize,
}

/// How a job's pipeline failed, with the results of the operations that
/// ran before the failure.
#[derive(Debug, PartialEq)]
pub struct JobFailure {
    pub results: Vec<ProcessingResult>,
    pub error: ProcessorError,
    /// How many records the pipeline started with.
    pub input_count: usize,
}

/// Runs the job's operations in order over a copy of the job's input, each
/// on the output of the one before. Errors that a stage records bear the
/// instant `now`. Every record that comes out has the identifier and the
/// source of a record of the input.
///
/// Fails with `NoInputData`, before any stage, where there is no input;
/// with `NotFound` at a join with an unknown set; and with `Timeout`
/// before a stage at which the job has run longer than its configuration
/// allows. The clock is read before each stage and after it; what a stage
/// returns for the instant read is what `execute_stage` says, and how long
/// it took is what `ProcessingResult::new` says. All else is a function of
/// the job and the store.
pub fn execute_processing_job(job: &ProcessingJob, store: &RecordStore, now: Timestamp) -> (r: Result<
    JobOutput,
    JobFailure,
>)
    ensures
        match r {
            Ok(out) => {
                &&& input_of(store@) matches Some(input)
                &&& run_pipeline(job.configuration.operations@, input, store@) == Some(
                    records_view(out.records@),
                )
                &&& out.results@.len() == job.configuration.operations@.len()
                &&& results_match(out.results@, job.configuration.operations@, input, store@, now)
                &&& out.input_count == input.len()
                &&& drawn_from(records_view(out.records@), input)
            },
            Err(failure) => match failure.error {
                ProcessorError::NoInputData => input_of(store@) is None && failure.results@.len() == 0
                    && failure.input_count == 0,
                ProcessorError::NotFound(missing) => {
                    &&& missing == Missing::Source
                    &&& input_of(store@) matches Some(input)
                    &&& results_match(failure.results@, job.configuration.operations@, input, store@, now)
                    &&& failure.results@.len() < job.configuration.operations@.len()
                    &&& run_prefix(
                        job.configuration.operations@,
                        input,
                        store@,
                        (failure.results@.len() + 1) as int,
                    ) is None
                    &&& failure.input_count == input.len()
                },
                ProcessorError::Timeout => {
                    &&& job.configuration.timeout_seconds > 0
                    &&& input_of(store@) matches Some(input)
                    &&& results_match(failure.results@, job.configuration.operations@, input, store@, now)
                    &&& failure.results@.len() < job.configuration.operations@.len()
                    &&& failure.input_count == input.len()
                },
                _ => false,
            },
        },
{
    let operations = &job.configuration.operations;
    let first = store.first();
    let input: Vec<DataRecord> = match first {
        Some(records) => {
            if records.len() == 0 {
                return Err(
                    JobFailure { results: Vec::new(), error: ProcessorError::NoInputData, input_count: 0 },
                );
            }
            duplicate_records(records)
        },
        None => {
            return Err(
                JobFailure { results: Vec::new(), error: ProcessorError::NoInputData, input_count: 0 },
            );
        },
    };
    let ghost start = records_view(input@);
    let ghost sets = store@;
    assert(input_of(sets) == Some(start)) by {
        assert(start.len() == sets[0].1.len());
    }
    let started = match job.started_at {
        Some(t) => t,
        None => now,
    };
    let input_count = input.len();
    let mut data = input;
    let mut results: Vec<ProcessingResult> = Vec::new();
    let mut before = Timestamp::now();
    let mut i: usize = 0;
    while i < operations.len()
        invariant
            i <= operations.len(),
            operations == &job.configuration.operations,
            sets == store@,
            results.len() == i,
            run_prefix(operations@, start, sets, i as int) == Some(records_view(data@)),
            results_match(results@, operations@, start, sets, now),
            input_count == start.len(),
            input_of(sets) == Some(start),
        decreases operations.len() - i,
    {
        let ghost earlier = results@;
        let ghost incoming = records_view(data@);
        match execute_stage(
            &operations[i],
            data,
            store,
            now,
            started,
            before,
            job.configuration.timeout_seconds,
        ) {
            Ok(out) => {
                let after = Timestamp::now();
                let label = operations[i].label();
                let result = ProcessingResult::new(label.to_owned(), out.records.len(), before, after, out.errors);
                assert(stage_matches(result, operations@[i as int], incoming, records_view(out.records@), now));
                results.push(result);
                assert(run_prefix(operations@, start, sets, i + 1) == Some(records_view(out.records@)));
                assert forall|k: int| 0 <= k < results@.len() implies #[trigger] stage_ok(
                    results@,
                    operations@,
                    start,
                    sets,
                    now,
                    k,
                ) by {
                    if k < i {
                        assert(stage_ok(earlier, operations@, start, sets, now, k));
                        assert(results@[k] == earlier[k]);
                    }
                }
                data = out.records;
                before = after;
            },
            Err(e) => {
                assert(e is NotFound ==> run_prefix(operations@, start, sets, i + 1) is None);
                return Err(JobFailure { results, error: e, input_count });
            },
        }
        i += 1;
    }
    proof {
        lemma_pipeline_keeps_origins(operations@, start, sets, operations@.len() as int);
    }
    Ok(JobOutput { results, records: data, input_count })
}

} // verus!
