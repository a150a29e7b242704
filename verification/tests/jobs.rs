use data_processor::clock::Timestamp;
use data_processor::config::{Operation, OutputFormat, ProcessingConfig, ValidationRule, ValidationType};
use data_processor::engine::{execute_processing_job, execute_stage, is_timed_out};
use data_processor::error::{Missing, ProcessorError};
use data_processor::job::{JobStatus, ProcessingJob};
use data_processor::processor::DataProcessor;
use data_processor::record::DataRecord;
use data_processor::sink::Emission;
use data_processor::store::RecordStore;
use data_processor::value::DataValue;

const T0: Timestamp = Timestamp { secs: 100, nanos: 0 };
const T1: Timestamp = Timestamp { secs: 101, nanos: 0 };
const T2: Timestamp = Timestamp { secs: 103, nanos: 500_000_000 };

fn config(operations: Vec<Operation>) -> ProcessingConfig {
    ProcessingConfig {
        operations,
        batch_size: 100,
        parallel_workers: 2,
        timeout_seconds: 0,
        retry_attempts: 0,
        output_format: OutputFormat::Json,
    }
}

fn job(name: &str, operations: Vec<Operation>) -> ProcessingJob {
    ProcessingJob::new(name.to_string(), config(operations))
}

fn amount(n: i64) -> DataValue {
    DataValue::Object(vec![("amount".to_string(), DataValue::Number(n))])
}

fn amounts_of(records: &Vec<DataRecord>) -> Vec<DataValue> {
    records.iter().map(|r| r.data.get("amount").unwrap().duplicate()).collect()
}

fn filter_then_sort() -> Vec<Operation> {
    vec![
        Operation::Filter { condition: "true".to_string() },
        Operation::Sort { fields: vec!["amount".to_string()], ascending: true },
    ]
}

fn status_of(p: &DataProcessor, id: &str) -> JobStatus {
    p.get_job_status(id).unwrap().status
}

#[test]
fn a_new_service_is_empty() {
    let p = DataProcessor::starting_at(T0);
    assert!(p.list_jobs().is_empty());
    assert!(p.get_job_status("x").is_none());
    assert_eq!(p.get_metrics().jobs_finished, 0);
    assert_eq!(p.active_jobs(), 0);
    let q = DataProcessor::new();
    assert!(q.list_jobs().is_empty());
}

#[test]
fn submit_registers_a_pending_job() {
    let mut p = DataProcessor::starting_at(T0);
    let mut submitted = job("first", filter_then_sort());
    submitted.status = JobStatus::Completed;
    submitted.error_count = 9;
    let id = p.submit_job(submitted).unwrap();
    assert_eq!(id.chars().count(), 36);
    let stored = p.get_job_status(&id).unwrap();
    assert_eq!(stored.id, id);
    assert_eq!(stored.name, "first");
    assert_eq!(stored.status, JobStatus::Pending);
    assert_eq!(stored.started_at, None);
    assert_eq!(stored.completed_at, None);
    assert_eq!(stored.error_count, 0);
    assert!(stored.results.is_empty());
    assert_eq!(stored.configuration, config(filter_then_sort()));
    assert_eq!(stored.configuration.batch_size, 100);
    assert_eq!(stored.configuration.parallel_workers, 2);
    let other = p.submit_job(job("second", vec![])).unwrap();
    assert_ne!(other, id);
    assert_eq!(p.list_jobs().len(), 2);
    assert_eq!(p.active_jobs(), 2);
}

#[test]
fn submit_with_a_known_identifier_is_fatal() {
    let mut p = DataProcessor::starting_at(T0);
    assert_eq!(p.submit_with(job("a", vec![]), "id-1".to_string(), T0), Ok("id-1".to_string()));
    assert_eq!(p.get_job_status("id-1").unwrap().created_at, T0);
    let again = p.submit_with(job("b", vec![]), "id-1".to_string(), T1);
    assert!(matches!(again, Err(ProcessorError::Fatal(_))));
    assert!(again.unwrap_err().is_fatal());
    assert_eq!(p.list_jobs().len(), 1);
    assert_eq!(p.get_job_status("id-1").unwrap().name, "a");
}

#[test]
fn filter_and_sort_job_completes() {
    let mut p = DataProcessor::starting_at(T0);
    assert_eq!(p.store_values("input", vec![amount(3), amount(1), amount(2)]), 3);
    let id = p.submit_job(job("sorted", filter_then_sort())).unwrap();
    let (ran, outcome) = p.process_next_job().unwrap();
    assert_eq!(ran, id);
    match outcome {
        Ok(Emission::StructuredFile { path, records }) => {
            assert_eq!(path, "output.json");
            assert_eq!(
                amounts_of(&records),
                vec![DataValue::Number(1), DataValue::Number(2), DataValue::Number(3)]
            );
        },
        other => panic!("unexpected outcome {:?}", other),
    }
    assert_eq!(status_of(&p, &id), JobStatus::Running);
    assert_eq!(p.finish_job(&id, Ok(()), Timestamp::now()), Ok(JobStatus::Completed));
    let done = p.get_job_status(&id).unwrap();
    assert_eq!(done.status, JobStatus::Completed);
    assert_eq!(done.results.len(), 2);
    assert_eq!(done.results[0].operation, "Filter");
    assert_eq!(done.results[1].operation, "Sort");
    assert_eq!(done.results[0].records_processed, 3);
    assert_eq!(done.results[1].records_processed, 3);
    assert_eq!(done.results[1].memory_used_bytes, 384);
    assert!(done.results[0].errors.is_empty());
    assert_eq!(done.input_count, 3);
    assert_eq!(done.processed_count, 3);
    assert_eq!(done.error_count, 0);
    assert!(done.started_at.is_some());
    assert!(done.completed_at.is_some());
    assert_eq!(p.get_metrics().total_records_processed, 3);
    assert_eq!(p.get_metrics().jobs_finished, 1);
    assert_eq!(p.get_metrics().jobs_failed, 0);
    assert!(p.process_next_job().is_none());
}

#[test]
fn job_without_input_fails() {
    let mut p = DataProcessor::starting_at(T0);
    let id = p.submit_job(job("empty", filter_then_sort())).unwrap();
    let (ran, outcome) = p.process_next_job().unwrap();
    assert_eq!(ran, id);
    let error = outcome.unwrap_err();
    assert_eq!(error, ProcessorError::NoInputData);
    assert_eq!(error.kind(), "NoInputData");
    assert_eq!(error.message(), "No input data available");
    let failed = p.get_job_status(&id).unwrap();
    assert_eq!(failed.status, JobStatus::Failed);
    assert_eq!(failed.results.len(), 0);
    assert_eq!(failed.error_count, 1);
    assert!(failed.completed_at.is_some());
    assert_eq!(p.get_metrics().jobs_failed, 1);
    assert_eq!(p.get_metrics().error_rate, 10000);
    assert_eq!(p.active_jobs(), 0);
}

#[test]
fn job_with_an_empty_first_set_fails() {
    let mut p = DataProcessor::starting_at(T0);
    p.store_values("first", vec![]);
    p.store_values("second", vec![amount(1)]);
    let id = p.submit_job(job("empty", vec![])).unwrap();
    let (_, outcome) = p.process_next_job().unwrap();
    assert_eq!(outcome, Err(ProcessorError::NoInputData));
    assert_eq!(status_of(&p, &id), JobStatus::Failed);
}

#[test]
fn validation_job_keeps_the_record_and_reports_it() {
    let mut p = DataProcessor::starting_at(T0);
    p.store_values("people", vec![DataValue::Object(vec![("name".to_string(), DataValue::String("bob".to_string()))])]);
    let rules = vec![ValidationRule {
        field: "email".to_string(),
        rule_type: ValidationType::Required,
        parameters: Vec::new(),
    }];
    let id = p.submit_job(job("check", vec![Operation::Validate { rules }])).unwrap();
    let (_, outcome) = p.process_next_job().unwrap();
    let records = match outcome {
        Ok(Emission::StructuredFile { records, .. }) => records,
        other => panic!("unexpected outcome {:?}", other),
    };
    assert_eq!(records.len(), 1);
    let checked = p.get_job_status(&id).unwrap();
    assert_eq!(checked.results.len(), 1);
    assert_eq!(checked.results[0].operation, "Validate");
    assert_eq!(checked.results[0].errors.len(), 1);
    assert_eq!(checked.results[0].errors[0].record_id, Some(records[0].id.clone()));
    assert_eq!(checked.results[0].errors[0].message, "Field email is required");
}

#[test]
fn cancel_twice_fails_the_second_time() {
    let mut p = DataProcessor::starting_at(T0);
    let id = p.submit_job(job("short", vec![])).unwrap();
    assert_eq!(p.cancel_job(&id), Ok(()));
    assert_eq!(status_of(&p, &id), JobStatus::Cancelled);
    assert_eq!(p.cancel_job(&id), Err(ProcessorError::InvalidState));
    assert_eq!(p.cancel_job(&id), Err(ProcessorError::InvalidState));
    assert_eq!(status_of(&p, &id), JobStatus::Cancelled);
    assert_eq!(ProcessorError::InvalidState.message(), "Job cannot be cancelled in current status");
}

#[test]
fn cancel_of_an_unknown_job_is_not_found() {
    let mut p = DataProcessor::starting_at(T0);
    p.submit_job(job("one", vec![])).unwrap();
    assert_eq!(p.cancel_job("nobody"), Err(ProcessorError::NotFound(Missing::Job)));
    assert_eq!(ProcessorError::NotFound(Missing::Job).message(), "Job not found");
    assert_eq!(p.list_jobs().len(), 1);
}

#[test]
fn cancel_of_a_terminal_job_is_invalid() {
    let mut p = DataProcessor::starting_at(T0);
    p.store_values("input", vec![amount(1)]);
    let done = p.submit_job(job("done", vec![])).unwrap();
    p.process_next_job().unwrap().1.unwrap();
    p.finish_job(&done, Ok(()), T1).unwrap();
    assert_eq!(p.cancel_job(&done), Err(ProcessorError::InvalidState));
    assert_eq!(status_of(&p, &done), JobStatus::Completed);
    let mut q = DataProcessor::starting_at(T0);
    let failed = q.submit_job(job("failed", vec![])).unwrap();
    assert!(q.process_next_job().unwrap().1.is_err());
    assert_eq!(q.cancel_job(&failed), Err(ProcessorError::InvalidState));
    assert_eq!(status_of(&q, &failed), JobStatus::Failed);
}

#[test]
fn a_running_job_can_be_cancelled_and_stays_cancelled() {
    let mut p = DataProcessor::starting_at(T0);
    p.store_values("input", vec![amount(1)]);
    let id = p.submit_job(job("slow", vec![])).unwrap();
    assert!(p.process_next_job().unwrap().1.is_ok());
    assert_eq!(status_of(&p, &id), JobStatus::Running);
    assert_eq!(p.cancel_job(&id), Ok(()));
    assert_eq!(p.finish_job(&id, Ok(()), T1), Err(ProcessorError::InvalidState));
    assert_eq!(status_of(&p, &id), JobStatus::Cancelled);
    assert_eq!(p.get_metrics().jobs_finished, 0);
}

#[test]
fn the_engine_passes_over_cancelled_jobs_and_keeps_the_order() {
    let mut p = DataProcessor::starting_at(T0);
    p.store_values("input", vec![amount(1)]);
    let a = p.submit_job(job("a", vec![])).unwrap();
    let b = p.submit_job(job("b", vec![])).unwrap();
    let c = p.submit_job(job("c", vec![])).unwrap();
    p.cancel_job(&a).unwrap();
    assert_eq!(p.start_next_job(T1), Some(b.clone()));
    assert_eq!(status_of(&p, &a), JobStatus::Cancelled);
    assert_eq!(status_of(&p, &b), JobStatus::Running);
    assert_eq!(p.get_job_status(&b).unwrap().started_at, Some(T1));
    assert_eq!(status_of(&p, &c), JobStatus::Pending);
    assert_eq!(p.active_jobs(), 2);
}

#[test]
fn no_job_is_taken_up_while_another_runs() {
    let mut p = DataProcessor::starting_at(T0);
    p.store_values("input", vec![amount(1)]);
    let a = p.submit_job(job("a", vec![])).unwrap();
    let b = p.submit_job(job("b", vec![])).unwrap();
    let (ran, outcome) = p.process_next_job_at(T1).unwrap();
    assert_eq!(ran, a);
    assert!(outcome.is_ok());
    assert!(p.process_next_job_at(T1).is_none());
    assert_eq!(p.start_next_job(T1), None);
    assert_eq!(status_of(&p, &a), JobStatus::Running);
    assert_eq!(status_of(&p, &b), JobStatus::Pending);
    assert_eq!(p.finish_job(&a, Ok(()), T2), Ok(JobStatus::Completed));
    let (ran, outcome) = p.process_next_job_at(T2).unwrap();
    assert_eq!(ran, b);
    assert!(outcome.is_ok());
    assert_eq!(p.get_job_status(&b).unwrap().started_at, Some(T2));
    assert_eq!(p.cancel_job(&b), Ok(()));
    let c = p.submit_job(job("c", vec![])).unwrap();
    assert_eq!(p.start_next_job(T2), Some(c));
}

#[test]
fn finish_reports_unknown_jobs_and_jobs_that_do_not_run() {
    let mut p = DataProcessor::starting_at(T0);
    let id = p.submit_job(job("waiting", vec![])).unwrap();
    assert_eq!(p.finish_job("nobody", Ok(()), T1), Err(ProcessorError::NotFound(Missing::Job)));
    assert_eq!(p.finish_job(&id, Ok(()), T1), Err(ProcessorError::InvalidState));
    assert_eq!(status_of(&p, &id), JobStatus::Pending);
    let store = RecordStore::new();
    let outcome = execute_processing_job(p.get_job_status(&id).unwrap(), &store, T1);
    assert!(matches!(p.record_outcome("nobody", outcome, T1), Err(ProcessorError::NotFound(Missing::Job))));
    let outcome = execute_processing_job(p.get_job_status(&id).unwrap(), &store, T1);
    assert!(matches!(p.record_outcome(&id, outcome, T1), Err(ProcessorError::InvalidState)));
    assert_eq!(status_of(&p, &id), JobStatus::Pending);
}

#[test]
fn a_sink_failure_fails_the_job() {
    let mut p = DataProcessor::starting_at(T0);
    p.store_values("input", vec![amount(1), amount(2)]);
    let id = p.submit_job(job("unlucky", vec![])).unwrap();
    let (ran, outcome) = p.process_next_job().unwrap();
    assert_eq!(ran, id);
    assert!(outcome.is_ok());
    let sink = Err(ProcessorError::SinkError("disk full".to_string()));
    assert_eq!(p.finish_job(&id, sink, T2), Ok(JobStatus::Failed));
    let failed = p.get_job_status(&id).unwrap();
    assert_eq!(failed.status, JobStatus::Failed);
    assert_eq!(failed.completed_at, Some(T2));
    assert_eq!(failed.error_count, 1);
    assert_eq!(failed.results.len(), 0);
    assert_eq!(failed.processed_count, 2);
    assert_eq!(p.get_metrics().jobs_failed, 1);
    assert_eq!(p.get_metrics().total_records_processed, 0);
}

#[test]
fn a_failed_job_is_run_again_while_retries_are_left() {
    let mut p = DataProcessor::starting_at(T0);
    let mut retried = job("patient", filter_then_sort());
    retried.configuration.retry_attempts = 2;
    let id = p.submit_job(retried).unwrap();
    assert_eq!(p.process_next_job().unwrap().1, Err(ProcessorError::NoInputData));
    assert_eq!(status_of(&p, &id), JobStatus::Running);
    assert_eq!(p.get_job_status(&id).unwrap().error_count, 1);
    assert_eq!(p.get_job_status(&id).unwrap().completed_at, None);
    assert_eq!(p.process_next_job().unwrap().1, Err(ProcessorError::NoInputData));
    assert_eq!(status_of(&p, &id), JobStatus::Running);
    p.store_values("late", vec![amount(2), amount(1)]);
    let (ran, outcome) = p.process_next_job().unwrap();
    assert_eq!(ran, id);
    assert!(outcome.is_ok());
    assert_eq!(p.finish_job(&id, Ok(()), Timestamp::now()), Ok(JobStatus::Completed));
    let done = p.get_job_status(&id).unwrap();
    assert_eq!(done.error_count, 2);
    assert_eq!(done.results.len(), 2);
    assert!(p.process_next_job().is_none());
}

#[test]
fn a_job_fails_for_good_when_its_retries_are_used_up() {
    let mut p = DataProcessor::starting_at(T0);
    let mut retried = job("hopeless", vec![]);
    retried.configuration.retry_attempts = 1;
    let id = p.submit_job(retried).unwrap();
    assert!(p.process_next_job().unwrap().1.is_err());
    assert_eq!(status_of(&p, &id), JobStatus::Running);
    assert!(p.process_next_job().unwrap().1.is_err());
    assert_eq!(status_of(&p, &id), JobStatus::Failed);
    assert_eq!(p.get_job_status(&id).unwrap().error_count, 2);
    assert!(p.process_next_job().is_none());
    assert_eq!(p.get_metrics().jobs_failed, 1);
}

#[test]
fn a_failing_stage_keeps_the_results_before_it() {
    let mut p = DataProcessor::starting_at(T0);
    p.store_values("input", vec![amount(2), amount(1)]);
    let operations = vec![
        Operation::Sort { fields: vec!["amount".to_string()], ascending: true },
        Operation::Join { source: "nowhere".to_string(), on: "amount".to_string() },
        Operation::Filter { condition: "true".to_string() },
    ];
    let id = p.submit_job(job("broken", operations)).unwrap();
    assert_eq!(p.process_next_job().unwrap().1, Err(ProcessorError::NotFound(Missing::Source)));
    let failed = p.get_job_status(&id).unwrap();
    assert_eq!(failed.status, JobStatus::Failed);
    assert_eq!(failed.results.len(), 1);
    assert_eq!(failed.results[0].operation, "Sort");
    assert_eq!(failed.input_count, 2);
    assert_eq!(failed.processed_count, 0);
}

#[test]
fn a_job_that_ran_too_long_times_out() {
    let mut store = RecordStore::new();
    store.insert(
        "input".to_string(),
        vec![DataRecord::new("r".to_string(), T0, amount(1), "input".to_string())],
    );
    let mut late = job("late", filter_then_sort());
    late.configuration.timeout_seconds = 1;
    late.started_at = Some(T0);
    let failure = execute_processing_job(&late, &store, T0).unwrap_err();
    assert_eq!(failure.error, ProcessorError::Timeout);
    assert_eq!(failure.error.message(), "Job timed out");
    assert!(failure.results.is_empty());
    assert_eq!(failure.input_count, 1);
    late.configuration.timeout_seconds = 0;
    let output = execute_processing_job(&late, &store, T0).unwrap();
    assert_eq!(output.results.len(), 2);
    assert_eq!(output.records.len(), 1);
    assert!(is_timed_out(&T0, &T2, 3));
    assert!(!is_timed_out(&T0, &T2, 4));
    assert!(!is_timed_out(&T0, &T2, 0));
    assert!(!is_timed_out(&T2, &T0, 1));
}

#[test]
fn job_transitions_follow_the_state_graph() {
    let pending = job("j", vec![]);
    let running = pending.take_up(T0);
    assert_eq!(running.status, JobStatus::Running);
    assert_eq!(running.started_at, Some(T0));
    let still = running.take_up(T1);
    assert_eq!(still.status, JobStatus::Running);
    assert_eq!(still.started_at, Some(T0));
    assert_eq!(still.elapsed(&T2), 3500);
    assert_eq!(still.elapsed(&T0), 0);
    let done = still.complete(T2);
    assert_eq!(done.status, JobStatus::Completed);
    assert_eq!(done.completed_at, Some(T2));
    let (failed, retry) = job("k", vec![]).take_up(T0).fail(T1);
    assert!(!retry);
    assert_eq!(failed.status, JobStatus::Failed);
    assert_eq!(failed.error_count, 1);
    assert_eq!(failed.completed_at, Some(T1));
    assert!(!JobStatus::Pending.is_terminal());
    assert!(!JobStatus::Running.is_terminal());
    assert!(JobStatus::Completed.is_terminal());
    assert!(JobStatus::Failed.is_terminal());
    assert!(JobStatus::Cancelled.is_terminal());
}

#[test]
fn a_turn_at_a_given_instant_stamps_the_job_and_its_errors() {
    let mut p = DataProcessor::starting_at(T0);
    p.store_values("input", vec![amount(5), DataValue::Object(vec![])]);
    let rules = vec![ValidationRule {
        field: "amount".to_string(),
        rule_type: ValidationType::Required,
        parameters: Vec::new(),
    }];
    let operations = vec![
        Operation::Validate { rules },
        Operation::Transform { field: "amount".to_string(), expression: "amount + 1".to_string() },
    ];
    let id = p.submit_job(job("stamped", operations)).unwrap();
    let (ran, outcome) = p.process_next_job_at(T1).unwrap();
    assert_eq!(ran, id);
    let records = match outcome {
        Ok(Emission::StructuredFile { records, .. }) => records,
        other => panic!("unexpected outcome {:?}", other),
    };
    assert_eq!(records[0].data, amount(6));
    assert_eq!(records[1].data, DataValue::Object(vec![]));
    let running = p.get_job_status(&id).unwrap();
    assert_eq!(running.status, JobStatus::Running);
    assert_eq!(running.started_at, Some(T1));
    assert_eq!(running.completed_at, None);
    assert_eq!(running.results.len(), 2);
    assert_eq!(running.results[0].errors.len(), 1);
    assert_eq!(running.results[0].errors[0].timestamp, T1);
    assert_eq!(running.results[0].errors[0].record_id, Some(records[1].id.clone()));
    assert!(running.results[1].errors.is_empty());
    assert_eq!(p.finish_job(&id, Ok(()), T2), Ok(JobStatus::Completed));
    let done = p.get_job_status(&id).unwrap();
    assert_eq!(done.completed_at, Some(T2));
    assert_eq!(p.get_metrics().total_processing_time_ms, 2500);
    assert_eq!(p.get_metrics().average_processing_time_ms, 2500);
    assert_eq!(p.get_metrics().error_rate, 0);
    assert!(p.process_next_job_at(T2).is_none());
}

#[test]
fn a_failure_at_a_given_instant_is_stamped_with_it() {
    let mut p = DataProcessor::starting_at(T0);
    let id = p.submit_job(job("empty", vec![])).unwrap();
    let (_, outcome) = p.process_next_job_at(T1).unwrap();
    assert_eq!(outcome, Err(ProcessorError::NoInputData));
    let failed = p.get_job_status(&id).unwrap();
    assert_eq!(failed.started_at, Some(T1));
    assert_eq!(failed.completed_at, Some(T1));
    assert_eq!(failed.status, JobStatus::Failed);
}

#[test]
fn jobs_run_in_the_order_of_their_submission() {
    let mut p = DataProcessor::starting_at(T0);
    p.store_values("input", vec![amount(1)]);
    let ids: Vec<String> = (0..5).map(|i| p.submit_job(job(&format!("job {}", i), vec![])).unwrap()).collect();
    for id in &ids {
        let (ran, outcome) = p.process_next_job().unwrap();
        assert_eq!(&ran, id);
        assert!(outcome.is_ok());
        assert_eq!(p.finish_job(id, Ok(()), T2), Ok(JobStatus::Completed));
    }
    assert!(p.process_next_job().is_none());
    let listed: Vec<String> = p.list_jobs().iter().map(|j| j.id.clone()).collect();
    assert_eq!(listed, ids);
}

#[test]
fn no_call_takes_a_job_back() {
    let mut p = DataProcessor::starting_at(T0);
    p.store_values("input", vec![amount(1)]);
    let done = p.submit_job(job("done", vec![])).unwrap();
    let gone = p.submit_job(job("gone", vec![])).unwrap();
    p.cancel_job(&gone).unwrap();
    assert!(p.process_next_job().unwrap().1.is_ok());
    p.finish_job(&done, Ok(()), T1).unwrap();
    assert!(p.process_next_job().is_none());
    assert!(p.start_next_job(T2).is_none());
    assert!(p.finish_job(&done, Err(ProcessorError::SinkError("late".to_string())), T2).is_err());
    assert!(p.finish_job(&gone, Ok(()), T2).is_err());
    assert!(p.cancel_job(&done).is_err());
    p.store_values("more", vec![amount(2)]);
    p.update_metrics(T2, data_processor::metrics::ResourceSample { cpu_usage: 0, memory_usage: 0, disk_usage: 0 });
    assert_eq!(status_of(&p, &done), JobStatus::Completed);
    assert_eq!(status_of(&p, &gone), JobStatus::Cancelled);
    assert_eq!(p.get_job_status(&done).unwrap().completed_at, Some(T1));
}

#[test]
fn a_job_that_is_run_again_runs_before_the_next_job() {
    let mut p = DataProcessor::starting_at(T0);
    let mut first = job("first", vec![]);
    first.configuration.retry_attempts = 1;
    let a = p.submit_job(first).unwrap();
    let b = p.submit_job(job("second", vec![])).unwrap();
    let (ran, outcome) = p.process_next_job_at(T1).unwrap();
    assert_eq!(ran, a);
    assert_eq!(outcome, Err(ProcessorError::NoInputData));
    assert_eq!(status_of(&p, &a), JobStatus::Running);
    assert_eq!(status_of(&p, &b), JobStatus::Pending);
    let (ran, outcome) = p.process_next_job_at(T2).unwrap();
    assert_eq!(ran, a);
    assert_eq!(outcome, Err(ProcessorError::NoInputData));
    assert_eq!(status_of(&p, &a), JobStatus::Failed);
    assert_eq!(status_of(&p, &b), JobStatus::Pending);
    assert_eq!(p.get_job_status(&a).unwrap().started_at, Some(T1));
    assert_eq!(p.get_job_status(&a).unwrap().completed_at, Some(T2));
    let (ran, _) = p.process_next_job_at(T2).unwrap();
    assert_eq!(ran, b);
    assert_eq!(status_of(&p, &b), JobStatus::Failed);
    assert!(p.process_next_job().is_none());
}

#[test]
fn a_retry_after_a_sink_failure_runs_before_the_next_job() {
    let mut p = DataProcessor::starting_at(T0);
    p.store_values("input", vec![amount(1)]);
    let mut first = job("first", vec![]);
    first.configuration.retry_attempts = 1;
    let a = p.submit_job(first).unwrap();
    let b = p.submit_job(job("second", vec![])).unwrap();
    assert_eq!(p.process_next_job().unwrap().0, a);
    let sink = Err(ProcessorError::SinkError("disk full".to_string()));
    assert_eq!(p.finish_job(&a, sink, T1), Ok(JobStatus::Running));
    assert_eq!(status_of(&p, &b), JobStatus::Pending);
    assert_eq!(p.process_next_job().unwrap().0, a);
    assert_eq!(p.finish_job(&a, Ok(()), T2), Ok(JobStatus::Completed));
    assert_eq!(p.process_next_job().unwrap().0, b);
}

#[test]
fn a_stage_at_a_given_instant_times_out_or_runs() {
    let store = RecordStore::new();
    let op = Operation::Filter { condition: "amount > 1".to_string() };
    let data = || {
        vec![
            DataRecord::new("a".to_string(), T0, amount(1), "s".to_string()),
            DataRecord::new("b".to_string(), T0, amount(2), "s".to_string()),
        ]
    };
    let late = execute_stage(&op, data(), &store, T0, T0, T2, 3);
    assert_eq!(late, Err(ProcessorError::Timeout));
    let in_time = execute_stage(&op, data(), &store, T0, T0, T2, 4).unwrap();
    assert_eq!(in_time.records.len(), 1);
    assert_eq!(in_time.records[0].id, "b");
    let unbounded = execute_stage(&op, data(), &store, T0, T0, T2, 0).unwrap();
    assert_eq!(unbounded.records.len(), 1);
    let join = Operation::Join { source: "nowhere".to_string(), on: "amount".to_string() };
    assert_eq!(
        execute_stage(&join, data(), &store, T0, T0, T1, 0),
        Err(ProcessorError::NotFound(Missing::Source))
    );
    assert_eq!(execute_stage(&join, data(), &store, T0, T0, T2, 1), Err(ProcessorError::Timeout));
}
