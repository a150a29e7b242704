//! Jobs and the states they pass through.

use vstd::prelude::*;
use crate::clock::Timestamp;
use crate::config::ProcessingConfig;
use crate::result::ProcessingResult;

verus! {

/// The state of a job. A job starts `Pending`, is `Running` while the
/// engine works on it, and ends `Completed`, `Failed` or `Cancelled`.
#[derive(Clone, Copy, Debug, PartialEq, Eq, Structural)]
pub enum JobStatus {
    Pending,
    Running,
    Completed,
    Failed,
    Cancelled,
}

impl JobStatus {
    /// Whether no further transition leaves the state.
    pub open spec fn terminal(self) -> bool {
        self is Completed || self is Failed || self is Cancelled
    }

    /// Whether the state graph has an edge from `self` to `next`.
    pub open spec fn step(self, next: JobStatus) -> bool {
        match (self, next) {
            (JobStatus::Pending, JobStatus::Running) => true,
            (JobStatus::Pending, JobStatus::Cancelled) => true,
            (JobStatus::Running, JobStatus::Completed) => true,
            (JobStatus::Running, JobStatus::Failed) => true,
            (JobStatus::Running, JobStatus::Cancelled) => true,
            _ => false,
        }
    }

    /// Whether a job in state `self` can come to be in state `later`: the
    /// two are the same, or a path of the state graph leads from one to the
    /// other.
    pub open spec fn reaches(self, later: JobStatus) -> bool {
        self == later || self.step(later) || (self is Pending && later.terminal())
    }

    /// Whether no further transition leaves the state.
    pub fn is_terminal(self) -> (r: bool)
        ensures
            r == self.terminal(),
    {
        match self {
            JobStatus::Pending => false,
            JobStatus::Running => false,
            _ => true,
        }
    }
}

/// `reaches` is the reflexive and transitive closure of `step`: it holds of
/// a state and itself, of the two ends of an edge, and of the ends of two
/// paths that meet.
pub proof fn lemma_reaches_is_closure(a: JobStatus, b: JobStatus, c: JobStatus)
    ensures
        a.reaches(a),
        a.step(b) ==> a.reaches(b),
        a.reaches(b) && b.reaches(c) ==> a.reaches(c),
        a.reaches(b) && a != b ==> exists|m: JobStatus| a.step(m) && m.reaches(b),
{
    if a.reaches(b) && a != b {
        if a.step(b) {
            assert(a.step(b) && b.reaches(b));
        } else {
            assert(a.step(JobStatus::Running) && JobStatus::Running.reaches(b));
        }
    }
}

/// A running job never becomes pending again, and a job in a terminal
/// state stays in that state.
pub proof fn lemma_no_way_back(from: JobStatus, to: JobStatus)
    requires
        from.reaches(to),
    ensures
        from is Running ==> !(to is Pending),
        from.terminal() ==> to == from,
        to is Pending ==> from is Pending,
{
}

/// A job: a pipeline to run, and the record of how it went.
#[derive(Debug, PartialEq)]
pub struct ProcessingJob {
    pub id: String,
    pub name: String,
    pub status: JobStatus,
    pub created_at: Timestamp,
    pub started_at: Option<Timestamp>,
    pub completed_at: Option<Timestamp>,
    /// How many records the job read.
    pub input_count: usize,
    /// How many records the job's last stage handed on.
    pub processed_count: usize,
    /// How often the job failed.
    pub error_count: usize,
    pub configuration: ProcessingConfig,
    /// One result for each operation that ran, in the pipeline's order.
    pub results: Vec<ProcessingResult>,
}

impl ProcessingJob {
    /// A job that is yet to be submitted, for the given pipeline.
    pub fn new(name: String, configuration: ProcessingConfig) -> (job: ProcessingJob)
        ensures
            job.name == name,
            job.configuration == configuration,
            job.status == JobStatus::Pending,
            job.id@.len() == 0,
            job.started_at is None,
            job.completed_at is None,
            job.input_count == 0,
            job.processed_count == 0,
            job.error_count == 0,
            job.results@.len() == 0,
            job.created_at == (Timestamp { secs: 0, nanos: 0 }),
    {
        ProcessingJob {
            id: String::new(),
            name,
            status: JobStatus::Pending,
            created_at: Timestamp { secs: 0, nanos: 0 },
            started_at: None,
            completed_at: None,
            input_count: 0,
            processed_count: 0,
            error_count: 0,
            configuration,
            results: Vec::new(),
        }
    }
}

/// The count after one more, or the largest number where there is no
/// larger.
pub open spec fn bumped(count: usize) -> usize {
    if count < usize::MAX {
        (count + 1) as usize
    } else {
        count
    }
}

impl ProcessingJob {
    /// The job as the engine takes it up at `now`: a pending job starts to
    /// run; a job that runs already, and was queued to be run again, stays
    /// as it is.
    pub open spec fn taken_up(self, now: Timestamp) -> ProcessingJob {
        if self.status is Pending {
            ProcessingJob { status: JobStatus::Running, started_at: Some(now), ..self }
        } else {
            self
        }
    }

    /// The job with the results and the counts of a run of its pipeline.
    pub open spec fn with_outcome(
        self,
        results: Vec<ProcessingResult>,
        input_count: usize,
        processed_count: usize,
    ) -> ProcessingJob {
        ProcessingJob { results, input_count, processed_count, ..self }
    }

    /// Whether the job is run again after a failure: it failed less often
    /// than its configuration allows retries.
    pub open spec fn will_retry(self) -> bool {
        self.error_count < self.configuration.retry_attempts
    }

    /// The job after a failure at `now`: one more error, and failed for
    /// good unless it is run again.
    pub open spec fn after_failure(self, now: Timestamp) -> ProcessingJob {
        if self.will_retry() {
            ProcessingJob { error_count: bumped(self.error_count), ..self }
        } else {
            ProcessingJob {
                status: JobStatus::Failed,
                completed_at: Some(now),
                error_count: bumped(self.error_count),
                ..self
            }
        }
    }

    /// The job after its output was written at `now`.
    pub open spec fn after_success(self, now: Timestamp) -> ProcessingJob {
        ProcessingJob { status: JobStatus::Completed, completed_at: Some(now), ..self }
    }

    /// The milliseconds for which the job has run at `now`, counted from
    /// its start, or from its creation where it never started.
    pub open spec fn running_time(self, now: Timestamp) -> u64 {
        let from = match self.started_at {
            Some(t) => t,
            None => self.created_at,
        };
        let ms = from.millis_until(now);
        if ms <= 0 {
            0
        } else if ms > u64::MAX {
            u64::MAX
        } else {
            ms as u64
        }
    }

    /// Takes the job up at `now`.
    pub fn take_up(self, now: Timestamp) -> (out: ProcessingJob)
        ensures
            out == self.taken_up(now),
    {
        let mut job = self;
        match job.status {
            JobStatus::Pending => {
                job.status = JobStatus::Running;
                job.started_at = Some(now);
            },
            _ => {},
        }
        job
    }

    /// Records the results and the counts of a run.
    pub fn record(self, results: Vec<ProcessingResult>, input_count: usize, processed_count: usize) -> (out:
        ProcessingJob)
        ensures
            out == self.with_outcome(results, input_count, processed_count),
    {
        let mut job = self;
        job.results = results;
        job.input_count = input_count;
        job.processed_count = processed_count;
        job
    }

    /// Records a failure at `now`. Returns the job and whether it is run
    /// again.
    pub fn fail(self, now: Timestamp) -> (out: (ProcessingJob, bool))
        ensures
            out.0 == self.after_failure(now),
            out.1 == self.will_retry(),
    {
        let mut job = self;
        let retry = (job.error_count as u128) < (job.configuration.retry_attempts as u128);
        if job.error_count < usize::MAX {
            job.error_count = job.error_count + 1;
        }
        if !retry {
            job.status = JobStatus::Failed;
            job.completed_at = Some(now);
        }
        (job, retry)
    }

    /// Records at `now` that the output was written.
    pub fn complete(self, now: Timestamp) -> (out: ProcessingJob)
        ensures
            out == self.after_success(now),
    {
        let mut job = self;
        job.status = JobStatus::Completed;
        job.completed_at = Some(now);
        job
    }

    /// The milliseconds for which the job has run at `now`.
    pub fn elapsed(&self, now: &Timestamp) -> (ms: u64)
        ensures
            ms == self.running_time(*now),
    {
        let from = match self.started_at {
            Some(t) => t,
            None => self.created_at,
        };
        let ms: u128 = from.elapsed_ms(now);
        if ms > u64::MAX as u128 {
            u64::MAX
        } else {
            ms as u64
        }
    }
}

} // verus!
