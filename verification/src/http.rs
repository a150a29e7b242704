//! The service surface: what each request is answered with.

use vstd::prelude::*;
use vstd::string::StringExecFns;
use crate::clock::{rfc3339_text, Timestamp};
use crate::error::ProcessorError;
use crate::job::ProcessingJob;
use crate::metrics::SystemMetrics;
use crate::ident::ID_LENGTH;
use crate::processor::{advances, is_submission, job_position, known, DataProcessor};
use crate::value::{entries_view, lemma_object_view, DataValue, Json};

verus! {

/// The status of a successful answer.
pub const OK: u16 = 200;

/// The status of an answer to a submission that was taken.
pub const CREATED: u16 = 201;

/// The status of an answer about a job that is not known.
pub const NOT_FOUND: u16 = 404;

/// The status of an answer to a request that failed inside the service.
pub const INTERNAL_SERVER_ERROR: u16 = 500;

/// What an answer carries.
#[derive(Debug, PartialEq)]
pub enum Body<'a> {
    /// A structured value.
    Value(DataValue),
    /// A job of the registry.
    Job(&'a ProcessingJob),
    /// All jobs of the registry.
    Jobs(&'a Vec<ProcessingJob>),
    /// The metrics snapshot.
    Metrics(SystemMetrics),
}

/// The answer to a request: a status and a body.
#[derive(Debug, PartialEq)]
pub struct ApiResponse<'a> {
    pub status: u16,
    pub body: Body<'a>,
}

/// The body of the answer to a health request at `now`.
pub open spec fn health_body(now: Timestamp) -> Json {
    Json::Object(
        seq![
            ("status"@, Json::String("healthy"@)),
            ("service"@, Json::String("rust-data-processor"@)),
            (
                "timestamp"@,
                match rfc3339_text(now.secs as int, now.nanos as int) {
                    Some(t) => Json::String(t),
                    None => Json::Null,
                },
            ),
            ("version"@, Json::String("1.0.0"@)),
        ],
    )
}

/// The body of the answer to a submission that was taken.
pub open spec fn submitted_body(id: Seq<char>) -> Json {
    Json::Object(
        seq![
            ("success"@, Json::Bool(true)),
            ("job_id"@, Json::String(id)),
            ("message"@, Json::String("Job submitted successfully"@)),
        ],
    )
}

/// The body of the answer to a submission that failed.
pub open spec fn failed_body(message: Seq<char>) -> Json {
    Json::Object(seq![("success"@, Json::Bool(false)), ("error"@, Json::String(message))])
}

/// The body of the answer about a job that is not known.
pub open spec fn unknown_job_body() -> Json {
    Json::Object(seq![("error"@, Json::String("Job not found"@))])
}

/// The answer to a health request at `now`.
pub fn health_response(now: Timestamp) -> (r: ApiResponse<'static>)
    ensures
        r.status == OK,
        r.body matches Body::Value(v) && v@ == health_body(now),
{
    let instant = match now.to_rfc3339() {
        Some(t) => DataValue::String(t),
        None => DataValue::Null,
    };
    let fields = vec![
        (String::from_str("status"), DataValue::String(String::from_str("healthy"))),
        (String::from_str("service"), DataValue::String(String::from_str("rust-data-processor"))),
        (String::from_str("timestamp"), instant),
        (String::from_str("version"), DataValue::String(String::from_str("1.0.0"))),
    ];
    proof {
        lemma_object_view(fields);
        assert(entries_view(fields@) =~= health_body(now)->Object_0);
    }
    ApiResponse { status: OK, body: Body::Value(DataValue::Object(fields)) }
}

/// Answers a health request: the service is healthy, at the current
/// instant.
pub fn health_handler() -> (r: ApiResponse<'static>)
    ensures
        r.status == OK,
        r.body matches Body::Value(v) && exists|now: Timestamp| v@ == health_body(now),
{
    let now = Timestamp::now();
    let r = health_response(now);
    proof {
        assert(r.body->Value_0@ == health_body(now));
    }
    r
}

/// The answer to a submission, given how the submission went: the job's
/// identifier with `CREATED`, or the error's message with
/// `INTERNAL_SERVER_ERROR`.
pub fn submit_response(outcome: &Result<String, ProcessorError>) -> (r: ApiResponse<'static>)
    ensures
        match *outcome {
            Ok(id) => {
                &&& r.status == CREATED
                &&& r.body matches Body::Value(v)
                &&& v@ == submitted_body(id@)
            },
            Err(e) => {
                &&& r.status == INTERNAL_SERVER_ERROR
                &&& r.body matches Body::Value(v)
                &&& v@ == failed_body(e.message_spec())
            },
        },
{
    match outcome {
        Ok(id) => {
            let fields = vec![
                (String::from_str("success"), DataValue::Bool(true)),
                (String::from_str("job_id"), DataValue::String(id.clone())),
                (String::from_str("message"), DataValue::String(String::from_str("Job submitted successfully"))),
            ];
            proof {
                lemma_object_view(fields);
                assert(entries_view(fields@) =~= submitted_body(id@)->Object_0);
            }
            ApiResponse { status: CREATED, body: Body::Value(DataValue::Object(fields)) }
        },
        Err(e) => {
            let fields = vec![
                (String::from_str("success"), DataValue::Bool(false)),
                (String::from_str("error"), DataValue::String(e.message())),
            ];
            proof {
                lemma_object_view(fields);
                assert(entries_view(fields@) =~= failed_body(e.message_spec())->Object_0);
            }
            ApiResponse { status: INTERNAL_SERVER_ERROR, body: Body::Value(DataValue::Object(fields)) }
        },
    }
}

/// Answers a submission: submits the job and says how that went. The
/// answer is `CREATED`, with the job registered and queued, unless the
/// identifier drawn is already in use; then it is
/// `INTERNAL_SERVER_ERROR` with the error's message, and nothing changes.
pub fn submit_job_handler(job: ProcessingJob, processor: &mut DataProcessor) -> (r: ApiResponse<'static>)
    requires
        old(processor).wf(),
    ensures
        final(processor).wf(),
        advances(old(processor).jobs(), final(processor).jobs()),
        final(processor).store() == old(processor).store(),
        final(processor).metrics() == old(processor).metrics(),
        r.status == CREATED || r.status == INTERNAL_SERVER_ERROR,
        r.status == CREATED ==> {
            &&& final(processor).jobs().len() == old(processor).jobs().len() + 1
            &&& final(processor).jobs().drop_last() == old(processor).jobs()
            &&& !known(old(processor).jobs(), final(processor).jobs().last().id@)
            &&& exists|now: Timestamp|
                is_submission(final(processor).jobs().last(), job, final(processor).jobs().last().id@, now)
            &&& final(processor).queue() == old(processor).queue().push(final(processor).jobs().last().id@)
            &&& r.body matches Body::Value(v)
            &&& v@ == submitted_body(final(processor).jobs().last().id@)
        },
        r.status == INTERNAL_SERVER_ERROR ==> {
            &&& exists|id: Seq<char>| id.len() == ID_LENGTH && known(old(processor).jobs(), id)
            &&& final(processor).jobs() == old(processor).jobs()
            &&& final(processor).queue() == old(processor).queue()
            &&& r.body matches Body::Value(v)
            &&& exists|message: Seq<char>| v@ == failed_body(message)
        },
{
    let outcome = processor.submit_job(job);
    let r = submit_response(&outcome);
    proof {
        match outcome {
            Ok(id) => {
                let now = choose|now: Timestamp| is_submission(processor.jobs().last(), job, id@, now);
                assert(is_submission(processor.jobs().last(), job, processor.jobs().last().id@, now));
            },
            Err(e) => {
                assert(r.body->Value_0@ == failed_body(e.message_spec()));
            },
        }
    }
    r
}

/// Answers a request for a job: the job with `OK`, or `NOT_FOUND`.
pub fn get_job_handler<'a>(job_id: &str, processor: &'a DataProcessor) -> (r: ApiResponse<'a>)
    ensures
        if known(processor.jobs(), job_id@) {
            &&& r.status == OK
            &&& r.body matches Body::Job(job)
            &&& *job == processor.jobs()[job_position(processor.jobs(), job_id@, 0)]
        } else {
            &&& r.status == NOT_FOUND
            &&& r.body matches Body::Value(v)
            &&& v@ == unknown_job_body()
        },
{
    match processor.get_job_status(job_id) {
        Some(job) => ApiResponse { status: OK, body: Body::Job(job) },
        None => {
            let fields = vec![(String::from_str("error"), DataValue::String(String::from_str("Job not found")))];
            proof {
                lemma_object_view(fields);
                assert(entries_view(fields@) =~= unknown_job_body()->Object_0);
            }
            ApiResponse { status: NOT_FOUND, body: Body::Value(DataValue::Object(fields)) }
        },
    }
}

/// Answers a request for all jobs.
pub fn list_jobs_handler<'a>(processor: &'a DataProcessor) -> (r: ApiResponse<'a>)
    ensures
        r.status == OK,
        r.body matches Body::Jobs(jobs) && jobs@ == processor.jobs(),
{
    ApiResponse { status: OK, body: Body::Jobs(processor.list_jobs()) }
}

/// Answers a request for the metrics.
pub fn metrics_handler(processor: &DataProcessor) -> (r: ApiResponse<'static>)
    ensures
        r.status == OK,
        r.body == Body::Metrics(processor.metrics()),
{
    ApiResponse { status: OK, body: Body::Metrics(processor.get_metrics()) }
}

} // verus!
