use data_processor::clock::Timestamp;
use data_processor::config::{OutputFormat, ProcessingConfig};
use data_processor::error::{Missing, ProcessorError};
use data_processor::http::{
    get_job_handler, health_handler, health_response, list_jobs_handler, metrics_handler, submit_job_handler,
    submit_response, Body,
};
use data_processor::job::ProcessingJob;
use data_processor::metrics::{clamp, ResourceSample, SystemMetrics};
use data_processor::processor::DataProcessor;
use data_processor::result::ProcessingResult;
use data_processor::value::DataValue;

const T0: Timestamp = Timestamp { secs: 1000, nanos: 0 };

fn text(t: &str) -> DataValue {
    DataValue::String(t.to_string())
}

fn object(fields: Vec<(&str, DataValue)>) -> DataValue {
    DataValue::Object(fields.into_iter().map(|(k, v)| (k.to_string(), v)).collect())
}

fn empty_job(name: &str) -> ProcessingJob {
    ProcessingJob::new(
        name.to_string(),
        ProcessingConfig {
            operations: Vec::new(),
            batch_size: 1,
            parallel_workers: 1,
            timeout_seconds: 30,
            retry_attempts: 0,
            output_format: OutputFormat::Parquet,
        },
    )
}

#[test]
fn health_answers_ok() {
    let r = health_response(Timestamp { secs: 0, nanos: 0 });
    assert_eq!(r.status, 200);
    assert_eq!(
        r.body,
        Body::Value(object(vec![
            ("status", text("healthy")),
            ("service", text("rust-data-processor")),
            ("timestamp", text("1970-01-01T00:00:00+00:00")),
            ("version", text("1.0.0")),
        ]))
    );
    let now = health_handler();
    assert_eq!(now.status, 200);
    match now.body {
        Body::Value(v) => assert_eq!(v.get("status"), Some(&text("healthy"))),
        other => panic!("unexpected body {:?}", other),
    }
}

#[test]
fn submission_answers_created_or_internal_error() {
    let taken = submit_response(&Ok("abc".to_string()));
    assert_eq!(taken.status, 201);
    assert_eq!(
        taken.body,
        Body::Value(object(vec![
            ("success", DataValue::Bool(true)),
            ("job_id", text("abc")),
            ("message", text("Job submitted successfully")),
        ]))
    );
    let failed = submit_response(&Err(ProcessorError::Fatal("queue closed".to_string())));
    assert_eq!(failed.status, 500);
    assert_eq!(
        failed.body,
        Body::Value(object(vec![("success", DataValue::Bool(false)), ("error", text("queue closed"))]))
    );
}

#[test]
fn handlers_answer_from_the_registry() {
    let mut p = DataProcessor::starting_at(T0);
    let answer = submit_job_handler(empty_job("one"), &mut p);
    assert_eq!(answer.status, 201);
    let id = match answer.body {
        Body::Value(v) => match v.get("job_id") {
            Some(DataValue::String(id)) => id.clone(),
            other => panic!("unexpected job_id {:?}", other),
        },
        other => panic!("unexpected body {:?}", other),
    };
    let found = get_job_handler(&id, &p);
    assert_eq!(found.status, 200);
    match found.body {
        Body::Job(job) => {
            assert_eq!(job.name, "one");
            assert_eq!(job.configuration.timeout_seconds, 30);
        },
        other => panic!("unexpected body {:?}", other),
    }
    let missing = get_job_handler("nobody", &p);
    assert_eq!(missing.status, 404);
    assert_eq!(missing.body, Body::Value(object(vec![("error", text("Job not found"))])));
    let all = list_jobs_handler(&p);
    assert_eq!(all.status, 200);
    match all.body {
        Body::Jobs(jobs) => assert_eq!(jobs.len(), 1),
        other => panic!("unexpected body {:?}", other),
    }
    let metrics = metrics_handler(&p);
    assert_eq!(metrics.status, 200);
    assert_eq!(metrics.body, Body::Metrics(p.get_metrics()));
}

#[test]
fn metrics_count_finished_jobs() {
    let mut m = SystemMetrics::new();
    m.record_job(10, 100, false);
    m.record_job(0, 50, true);
    m.record_job(5, 51, false);
    assert_eq!(m.total_records_processed, 15);
    assert_eq!(m.jobs_finished, 3);
    assert_eq!(m.jobs_failed, 1);
    assert_eq!(m.total_processing_time_ms, 201);
    assert_eq!(m.average_processing_time_ms, 67);
    assert_eq!(m.error_rate, 3333);
    assert_eq!(m.uptime_seconds, 0);
}

#[test]
fn metrics_totals_stop_at_the_largest_number() {
    let mut m = SystemMetrics::new();
    m.total_records_processed = u64::MAX - 1;
    m.total_processing_time_ms = u64::MAX;
    m.jobs_finished = u64::MAX;
    m.jobs_failed = u64::MAX;
    m.record_job(5, 7, true);
    assert_eq!(m.total_records_processed, u64::MAX);
    assert_eq!(m.total_processing_time_ms, u64::MAX);
    assert_eq!(m.jobs_finished, u64::MAX);
    assert_eq!(m.average_processing_time_ms, 1);
    assert_eq!(m.error_rate, 10000);
}

#[test]
fn refresh_sets_gauges_and_uptime() {
    let mut p = DataProcessor::starting_at(T0);
    p.submit_job(empty_job("a")).unwrap();
    let b = p.submit_job(empty_job("b")).unwrap();
    p.cancel_job(&b).unwrap();
    let sample = ResourceSample { cpu_usage: 1234, memory_usage: 10000, disk_usage: 10001 };
    p.update_metrics(Timestamp { secs: 1090, nanos: 999_999_999 }, sample);
    let m = p.get_metrics();
    assert_eq!(m.cpu_usage, 1234);
    assert_eq!(m.memory_usage, 10000);
    assert_eq!(m.disk_usage, 10000);
    assert_eq!(m.uptime_seconds, 90);
    assert_eq!(m.active_jobs, 1);
    assert_eq!(m.jobs_finished, 0);
    p.update_metrics(Timestamp { secs: 10, nanos: 0 }, sample);
    assert_eq!(p.get_metrics().uptime_seconds, 0);
    assert_eq!(clamp(0), 0);
    assert_eq!(clamp(u32::MAX), 10000);
}

#[test]
fn a_result_holds_time_and_memory() {
    let started = Timestamp { secs: 1, nanos: 999_000_000 };
    let finished = Timestamp { secs: 2, nanos: 1_000_000 };
    let r = ProcessingResult::new("Sort".to_string(), 3, started, finished, Vec::new());
    assert_eq!(r.operation, "Sort");
    assert_eq!(r.records_processed, 3);
    assert_eq!(r.execution_time_ms, 2);
    assert_eq!(r.memory_used_bytes, 384);
    assert!(r.errors.is_empty());
    assert!(r.metadata.is_empty());
    let backwards = ProcessingResult::new("Sort".to_string(), usize::MAX, finished, started, Vec::new());
    assert_eq!(backwards.execution_time_ms, 0);
    assert_eq!(backwards.memory_used_bytes, usize::MAX);
}

#[test]
fn errors_have_kinds_and_messages() {
    assert_eq!(ProcessorError::NotFound(Missing::File).kind(), "NotFound");
    assert_eq!(ProcessorError::NotFound(Missing::File).message(), "File not found");
    assert_eq!(ProcessorError::NotFound(Missing::Source).message(), "Source not found");
    assert_eq!(ProcessorError::InvalidState.kind(), "InvalidState");
    assert_eq!(ProcessorError::ParseError("p".to_string()).kind(), "ParseError");
    assert_eq!(ProcessorError::RemoteError { status: 1 }.kind(), "RemoteError");
    assert_eq!(ProcessorError::NoInputData.kind(), "NoInputData");
    assert_eq!(ProcessorError::SinkError("s".to_string()).kind(), "SinkError");
    assert_eq!(ProcessorError::Timeout.kind(), "Timeout");
    assert_eq!(ProcessorError::Fatal("f".to_string()).kind(), "Fatal");
    assert_eq!(ProcessorError::ParseError("p".to_string()).message(), "p");
    assert_eq!(ProcessorError::SinkError("s".to_string()).message(), "s");
    assert_eq!(ProcessorError::Fatal("f".to_string()).message(), "f");
    assert!(!ProcessorError::Timeout.is_fatal());
}
