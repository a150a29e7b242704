//! The service core: the job registry with its state machine, the queue of
//! submitted jobs, the record store and the metrics.

use vstd::prelude::*;
use vstd::string::StringExecFns;
use crate::clock::Timestamp;
use crate::config::names_view;
use crate::engine::{
    execute_processing_job, input_of, lemma_prefix_fails, results_match, run_pipeline, run_prefix, JobFailure,
    JobOutput,
};
use crate::error::{Missing, ProcessorError};
use crate::ident::{fresh_id, ID_LENGTH};
use crate::ingest::{
    answer_values, file_values, ingested, new_records, read_answer_values, read_file_values, success,
};
use crate::job::{bumped, JobStatus, ProcessingJob};
use crate::metrics::{ResourceSample, SystemMetrics};
use crate::record::{records_view, Record};
use crate::sink::{emits, emits_models, output_results, Emission};
use crate::store::{distinct_names, lemma_put_get, put, source_from, RecordStore};
use crate::text::same_text;
use crate::value::{items_view, DataValue, Json};

verus! {

/// The position of the first job called `id` at or after position `i`, or
/// the number of jobs if there is none.
pub open spec fn job_position(jobs: Seq<ProcessingJob>, id: Seq<char>, i: int) -> int
    decreases jobs.len() - i,
{
    if i < 0 || i >= jobs.len() {
        jobs.len() as int
    } else if jobs[i].id@ == id {
        i
    } else {
        job_position(jobs, id, i + 1)
    }
}

/// Whether the registry holds a job called `id`.
pub open spec fn known(jobs: Seq<ProcessingJob>, id: Seq<char>) -> bool {
    job_position(jobs, id, 0) < jobs.len()
}

/// No two jobs of the registry have one identifier.
pub open spec fn distinct_ids(jobs: Seq<ProcessingJob>) -> bool {
    forall|i: int, j: int| 0 <= i < j < jobs.len() ==> (#[trigger] jobs[i]).id@ != (#[trigger] jobs[j]).id@
}

/// No two jobs of the registry run at once.
pub open spec fn one_runs_at_most(jobs: Seq<ProcessingJob>) -> bool {
    forall|i: int, j: int|
        0 <= i < j < jobs.len() ==> !((#[trigger] jobs[i]).status is Running && (
        #[trigger] jobs[j]).status is Running)
}

/// The position of the first job at or after position `i` that runs, or
/// the number of jobs if none does.
pub open spec fn running_position(jobs: Seq<ProcessingJob>, i: int) -> int
    decreases jobs.len() - i,
{
    if i < 0 || i >= jobs.len() {
        jobs.len() as int
    } else if jobs[i].status is Running {
        i
    } else {
        running_position(jobs, i + 1)
    }
}

/// `running_position` stays within the registry, points at a job that
/// runs when it points at one, and passes none that runs.
pub proof fn lemma_running_position(jobs: Seq<ProcessingJob>, i: int)
    requires
        0 <= i <= jobs.len(),
    ensures
        i <= running_position(jobs, i) <= jobs.len(),
        running_position(jobs, i) < jobs.len() ==> jobs[running_position(jobs, i)].status is Running,
        forall|k: int| i <= k < running_position(jobs, i) ==> !((#[trigger] jobs[k]).status is Running),
    decreases jobs.len() - i,
{
    if i < jobs.len() && !(jobs[i].status is Running) {
        lemma_running_position(jobs, i + 1);
    }
}

/// Whether a registry can come to be another: every job is still there,
/// at its place and under its name, in a state that its earlier state
/// reaches along the state graph.
pub open spec fn advances(before: Seq<ProcessingJob>, after: Seq<ProcessingJob>) -> bool {
    &&& before.len() <= after.len()
    &&& forall|i: int|
        0 <= i < before.len() ==> (#[trigger] after[i]).id@ == before[i].id@ && before[i].status.reaches(
            after[i].status,
        )
}

/// Whether `new` is what submission makes of `job`: pending, created at
/// `now`, called `id`, with the name and the configuration of `job` and
/// nothing recorded yet.
pub open spec fn is_submission(new: ProcessingJob, job: ProcessingJob, id: Seq<char>, now: Timestamp) -> bool {
    &&& new.id@ == id
    &&& new.name == job.name
    &&& new.configuration == job.configuration
    &&& new.status == JobStatus::Pending
    &&& new.created_at == now
    &&& new.started_at is None
    &&& new.completed_at is None
    &&& new.input_count == 0
    &&& new.processed_count == 0
    &&& new.error_count == 0
    &&& new.results@.len() == 0
}

/// `job_position` stays within the registry, points at a job of the name
/// when it points at one, and passes none of that name.
pub proof fn lemma_job_position(jobs: Seq<ProcessingJob>, id: Seq<char>, i: int)
    requires
        0 <= i <= jobs.len(),
    ensures
        i <= job_position(jobs, id, i) <= jobs.len(),
        job_position(jobs, id, i) < jobs.len() ==> jobs[job_position(jobs, id, i)].id@ == id,
        forall|k: int| i <= k < job_position(jobs, id, i) ==> (#[trigger] jobs[k]).id@ != id,
    decreases jobs.len() - i,
{
    if i < jobs.len() && jobs[i].id@ != id {
        lemma_job_position(jobs, id, i + 1);
    }
}

/// The service core. Owns the jobs once they are submitted.
pub struct DataProcessor {
    jobs: Vec<ProcessingJob>,
    queue: Vec<String>,
    data_store: RecordStore,
    metrics: SystemMetrics,
    start_time: Timestamp,
}

impl DataProcessor {
    /// The registry: all jobs that were submitted, in the order of their
    /// submission.
    pub closed spec fn jobs(&self) -> Seq<ProcessingJob> {
        self.jobs@
    }

    /// The identifiers of the jobs that wait for the engine, first come
    /// first.
    pub closed spec fn queue(&self) -> Seq<Seq<char>> {
        names_view(self.queue@)
    }

    /// The sets of the record store.
    pub closed spec fn store(&self) -> Seq<(Seq<char>, Seq<Record>)> {
        self.data_store@
    }

    /// The metrics snapshot.
    pub closed spec fn metrics(&self) -> SystemMetrics {
        self.metrics
    }

    /// The instant at which the service started.
    pub closed spec fn start_time(&self) -> Timestamp {
        self.start_time
    }

    /// The invariant of the service core: no two jobs have one identifier,
    /// no two jobs run at once, and no two sets of the store have one
    /// name.
    pub open spec fn wf(&self) -> bool {
        distinct_ids(self.jobs()) && one_runs_at_most(self.jobs()) && distinct_names(self.store())
    }

    /// A service core that started at `now`: no jobs, no records, all
    /// counters at zero.
    pub fn starting_at(now: Timestamp) -> (p: DataProcessor)
        ensures
            p.wf(),
            p.jobs().len() == 0,
            p.queue().len() == 0,
            p.store().len() == 0,
            p.metrics() == SystemMetrics::zero(),
            p.start_time() == now,
    {
        DataProcessor {
            jobs: Vec::new(),
            queue: Vec::new(),
            data_store: RecordStore::new(),
            metrics: SystemMetrics::new(),
            start_time: now,
        }
    }

    /// A service core that starts now: no jobs, no records, all counters
    /// at zero, and as its start the instant that the clock reads.
    pub fn new() -> (p: DataProcessor)
        ensures
            p.wf(),
            p.jobs().len() == 0,
            p.queue().len() == 0,
            p.store().len() == 0,
            p.metrics() == SystemMetrics::zero(),
            p.start_time().nanos < 1_000_000_000,
    {
        DataProcessor::starting_at(Timestamp::now())
    }

    /// Finds the job called `id`.
    fn position(&self, id: &str) -> (at: usize)
        ensures
            at == job_position(self.jobs(), id@, 0),
            at <= self.jobs().len(),
            at < self.jobs().len() ==> self.jobs()[at as int].id@ == id@,
    {
        let mut i: usize = 0;
        while i < self.jobs.len()
            invariant
                i <= self.jobs.len(),
                job_position(self.jobs@, id@, 0) == job_position(self.jobs@, id@, i as int),
            decreases self.jobs.len() - i,
        {
            if same_text(self.jobs[i].id.as_str(), id) {
                return i;
            }
            i += 1;
        }
        i
    }

    /// Takes a job into the registry under the identifier `id`, pending
    /// and created at `now`, and puts it at the end of the queue. Fails
    /// with `Fatal`, and changes nothing, where the registry holds a job of
    /// that identifier.
    pub fn submit_with(&mut self, job: ProcessingJob, id: String, now: Timestamp) -> (r: Result<
        String,
        ProcessorError,
    >)
        requires
            old(self).wf(),
        ensures
            final(self).wf(),
            advances(old(self).jobs(), final(self).jobs()),
            final(self).store() == old(self).store(),
            final(self).metrics() == old(self).metrics(),
            final(self).start_time() == old(self).start_time(),
            match r {
                Ok(out) => {
                    &&& !known(old(self).jobs(), id@)
                    &&& out@ == id@
                    &&& final(self).jobs().len() == old(self).jobs().len() + 1
                    &&& final(self).jobs().drop_last() == old(self).jobs()
                    &&& is_submission(final(self).jobs().last(), job, id@, now)
                    &&& final(self).queue() == old(self).queue().push(id@)
                },
                Err(e) => {
                    &&& known(old(self).jobs(), id@)
                    &&& e is Fatal
                    &&& final(self).jobs() == old(self).jobs()
                    &&& final(self).queue() == old(self).queue()
                },
            },
    {
        let at = self.position(id.as_str());
        if at < self.jobs.len() {
            return Err(ProcessorError::Fatal(String::from_str("Job identifier is already in use")));
        }
        proof {
            lemma_job_position(self.jobs@, id@, 0);
        }
        let ghost before = self.jobs@;
        let ghost waiting = names_view(self.queue@);
        let out = id.clone();
        let queued = id.clone();
        let ProcessingJob { name, configuration, .. } = job;
        let new = ProcessingJob {
            id,
            name,
            status: JobStatus::Pending,
            created_at: now,
            started_at: None,
            completed_at: None,
            input_count: 0,
            processed_count: 0,
            error_count: 0,
            configuration,
            results: Vec::new(),
        };
        self.jobs.push(new);
        self.queue.push(queued);
        assert(self.jobs@.drop_last() =~= before);
        assert(names_view(self.queue@) =~= waiting.push(id@));
        Ok(out)
    }

    /// Submits a job: gives it a new identifier, takes it into the
    /// registry as pending, and hands it to the engine's queue. Returns
    /// the identifier. Fails with `Fatal`, and changes nothing, only in the
    /// event that the identifier drawn is already in use: never on a
    /// registry that holds no job with an identifier of the usual length.
    pub fn submit_job(&mut self, job: ProcessingJob) -> (r: Result<String, ProcessorError>)
        requires
            old(self).wf(),
        ensures
            final(self).wf(),
            advances(old(self).jobs(), final(self).jobs()),
            final(self).store() == old(self).store(),
            final(self).metrics() == old(self).metrics(),
            match r {
                Ok(id) => {
                    &&& id@.len() == ID_LENGTH
                    &&& !known(old(self).jobs(), id@)
                    &&& final(self).jobs().len() == old(self).jobs().len() + 1
                    &&& final(self).jobs().drop_last() == old(self).jobs()
                    &&& exists|now: Timestamp| is_submission(final(self).jobs().last(), job, id@, now)
                    &&& final(self).queue() == old(self).queue().push(id@)
                },
                Err(e) => {
                    &&& e is Fatal
                    &&& exists|id: Seq<char>| id.len() == ID_LENGTH && known(old(self).jobs(), id)
                    &&& final(self).jobs() == old(self).jobs()
                    &&& final(self).queue() == old(self).queue()
                },
            },
    {
        let id = fresh_id();
        let now = Timestamp::now();
        let r = self.submit_with(job, id, now);
        proof {
            if r is Ok {
                assert(is_submission(self.jobs().last(), job, id@, now));
            } else {
                assert(id@.len() == ID_LENGTH && known(old(self).jobs(), id@));
            }
        }
        r
    }

    /// The job called `job_id`, if the registry holds it.
    pub fn get_job_status(&self, job_id: &str) -> (r: Option<&ProcessingJob>)
        ensures
            match r {
                Some(job) => known(self.jobs(), job_id@) && *job == self.jobs()[job_position(
                    self.jobs(),
                    job_id@,
                    0,
                )],
                None => !known(self.jobs(), job_id@),
            },
    {
        let at = self.position(job_id);
        if at < self.jobs.len() {
            Some(&self.jobs[at])
        } else {
            None
        }
    }

    /// All jobs that the registry holds.
    pub fn list_jobs(&self) -> (r: &Vec<ProcessingJob>)
        ensures
            r@ == self.jobs(),
    {
        &self.jobs
    }

    /// Cancels a job. Fails with `NotFound` where the registry holds no
    /// job of that identifier, and with `InvalidState` where the job is in
    /// a terminal state; in both cases nothing changes. Otherwise the job
    /// is cancelled and all else stays as it is; the job is then in a
    /// terminal state, so that to cancel it again fails.
    pub fn cancel_job(&mut self, job_id: &str) -> (r: Result<(), ProcessorError>)
        requires
            old(self).wf(),
        ensures
            final(self).wf(),
            advances(old(self).jobs(), final(self).jobs()),
            final(self).queue() == old(self).queue(),
            final(self).store() == old(self).store(),
            final(self).metrics() == old(self).metrics(),
            final(self).start_time() == old(self).start_time(),
            match r {
                Ok(_) => {
                    let at = job_position(old(self).jobs(), job_id@, 0);
                    &&& known(old(self).jobs(), job_id@)
                    &&& !old(self).jobs()[at].status.terminal()
                    &&& final(self).jobs() == old(self).jobs().update(
                        at,
                        ProcessingJob { status: JobStatus::Cancelled, ..old(self).jobs()[at] },
                    )
                    &&& job_position(final(self).jobs(), job_id@, 0) == at
                    &&& final(self).jobs()[at].status.terminal()
                },
                Err(ProcessorError::NotFound(Missing::Job)) => !known(old(self).jobs(), job_id@) && final(self).jobs()
                    == old(self).jobs(),
                Err(ProcessorError::InvalidState) => {
                    let at = job_position(old(self).jobs(), job_id@, 0);
                    &&& known(old(self).jobs(), job_id@)
                    &&& old(self).jobs()[at].status.terminal()
                    &&& final(self).jobs() == old(self).jobs()
                },
                Err(_) => false,
            },
    {
        let at = self.position(job_id);
        if at >= self.jobs.len() {
            return Err(ProcessorError::NotFound(Missing::Job));
        }
        if self.jobs[at].status.is_terminal() {
            return Err(ProcessorError::InvalidState);
        }
        let ghost before = self.jobs@;
        proof {
            lemma_cancel_only_once(before, job_id@);
        }
        let mut job = self.jobs.remove(at);
        job.status = JobStatus::Cancelled;
        self.jobs.insert(at, job);
        assert(self.jobs@ =~= before.update(
            at as int,
            ProcessingJob { status: JobStatus::Cancelled, ..before[at as int] },
        ));
        Ok(())
    }
}

/// Whether the engine can take up the job called `id`: the registry holds
/// it, and it is in no terminal state.
pub open spec fn ready(jobs: Seq<ProcessingJob>, id: Seq<char>) -> bool {
    known(jobs, id) && !jobs[job_position(jobs, id, 0)].status.terminal()
}

/// The first position of the queue, at or after `k`, of a job that the
/// engine can take up; the length of the queue if there is none.
pub open spec fn next_ready(queue: Seq<Seq<char>>, jobs: Seq<ProcessingJob>, k: int) -> int
    decreases queue.len() - k,
{
    if k < 0 || k >= queue.len() {
        queue.len() as int
    } else if ready(jobs, queue[k]) {
        k
    } else {
        next_ready(queue, jobs, k + 1)
    }
}

/// Replacing a job by one of the same identifier in a state that the old
/// state reaches keeps the identifiers distinct and advances the
/// registry. Where the job runs only if it ran, or if no other job runs,
/// still no two jobs run at once.
pub proof fn lemma_update_advances(jobs: Seq<ProcessingJob>, at: int, new: ProcessingJob)
    requires
        0 <= at < jobs.len(),
        new.id@ == jobs[at].id@,
        jobs[at].status.reaches(new.status),
    ensures
        advances(jobs, jobs.update(at, new)),
        distinct_ids(jobs) ==> distinct_ids(jobs.update(at, new)),
        one_runs_at_most(jobs) && (new.status is Running ==> jobs[at].status is Running) ==> one_runs_at_most(
            jobs.update(at, new),
        ),
        (forall|i: int| 0 <= i < jobs.len() && i != at ==> !((#[trigger] jobs[i]).status is Running))
            ==> one_runs_at_most(jobs.update(at, new)),
{
    let after = jobs.update(at, new);
    if one_runs_at_most(jobs) && (new.status is Running ==> jobs[at].status is Running) {
        assert forall|i: int, j: int| 0 <= i < j < after.len() implies !((#[trigger] after[i]).status is Running
            && (#[trigger] after[j]).status is Running) by {
            assert(!(jobs[i].status is Running && jobs[j].status is Running));
        }
    }
    if forall|i: int| 0 <= i < jobs.len() && i != at ==> !((#[trigger] jobs[i]).status is Running) {
        assert forall|i: int, j: int| 0 <= i < j < after.len() implies !((#[trigger] after[i]).status is Running
            && (#[trigger] after[j]).status is Running) by {
            if i != at {
                assert(!(jobs[i].status is Running));
            } else {
                assert(!(jobs[j].status is Running));
            }
        }
    }
    assert forall|i: int| 0 <= i < jobs.len() implies (#[trigger] after[i]).id@ == jobs[i].id@
        && jobs[i].status.reaches(after[i].status) by {}
    if distinct_ids(jobs) {
        assert forall|i: int, j: int| 0 <= i < j < after.len() implies (#[trigger] after[i]).id@ != (
        #[trigger] after[j]).id@ by {
            assert(after[i].id@ == jobs[i].id@);
            assert(after[j].id@ == jobs[j].id@);
        }
    }
}

impl DataProcessor {
    /// Whether `after` is `before` with a failure at `now` recorded for
    /// `job`, which stands at position `at`: the job has one more error.
    /// Where it is run again it goes to the front of the queue, so that it
    /// is run before any other job is taken up; else it has failed for good
    /// and counts in the metrics.
    pub open spec fn failure_recorded(
        before: &DataProcessor,
        after: &DataProcessor,
        at: int,
        job: ProcessingJob,
        now: Timestamp,
    ) -> bool {
        &&& after.jobs() == before.jobs().update(at, job.after_failure(now))
        &&& if job.will_retry() {
            &&& after.queue() == seq![job.id@] + before.queue()
            &&& after.metrics() == before.metrics()
        } else {
            &&& after.queue() == before.queue()
            &&& after.metrics() == before.metrics().after_job(0, job.running_time(now), true)
        }
    }

    /// Finds the job that runs.
    fn running(&self) -> (at: usize)
        ensures
            at == running_position(self.jobs(), 0),
            at <= self.jobs().len(),
    {
        let mut i: usize = 0;
        while i < self.jobs.len()
            invariant
                i <= self.jobs.len(),
                running_position(self.jobs@, 0) == running_position(self.jobs@, i as int),
            decreases self.jobs.len() - i,
        {
            match self.jobs[i].status {
                JobStatus::Running => {
                    return i;
                },
                _ => {},
            }
            i += 1;
        }
        i
    }

    /// Whether the engine is busy with another job than the one at
    /// position `k` of the queue: a job runs, and it is not that one.
    pub open spec fn busy(&self, k: int) -> bool {
        let run = running_position(self.jobs(), 0);
        run < self.jobs().len() && run != job_position(self.jobs(), self.queue()[k], 0)
    }

    /// Takes the next job from the queue that the engine can take up, and
    /// takes it up at `now`: a pending job starts to run, and a job that
    /// runs already, queued to be run again, goes on. Jobs that were
    /// cancelled meanwhile are dropped from the queue. Returns the job's
    /// identifier; or nothing, and takes up no job, where no job waits or
    /// where another job runs, since no two jobs run at once.
    pub fn start_next_job(&mut self, now: Timestamp) -> (r: Option<String>)
        requires
            old(self).wf(),
        ensures
            final(self).wf(),
            advances(old(self).jobs(), final(self).jobs()),
            final(self).store() == old(self).store(),
            final(self).metrics() == old(self).metrics(),
            final(self).start_time() == old(self).start_time(),
            ({
                let k = next_ready(old(self).queue(), old(self).jobs(), 0);
                match r {
                    Some(id) => {
                        let at = job_position(old(self).jobs(), id@, 0);
                        &&& 0 <= k < old(self).queue().len()
                        &&& id@ == old(self).queue()[k]
                        &&& 0 <= at < old(self).jobs().len()
                        &&& !old(self).busy(k)
                        &&& final(self).queue() == old(self).queue().skip(k + 1)
                        &&& final(self).jobs() == old(self).jobs().update(
                            at,
                            old(self).jobs()[at].taken_up(now),
                        )
                        &&& final(self).jobs()[at].status == JobStatus::Running
                    },
                    None => {
                        &&& final(self).jobs() == old(self).jobs()
                        &&& if k == old(self).queue().len() {
                            final(self).queue().len() == 0
                        } else {
                            old(self).busy(k) && final(self).queue() == old(self).queue().skip(k)
                        }
                    },
                }
            }),
    {
        let ghost waiting = names_view(self.queue@);
        let ghost registry = self.jobs@;
        let ghost sets = self.data_store@;
        let ghost counters = self.metrics;
        let ghost start = self.start_time;
        let ghost mut passed: int = 0;
        let run = self.running();
        proof {
            lemma_running_position(registry, 0);
        }
        assert(waiting.skip(0) =~= waiting);
        while self.queue.len() > 0
            invariant
                0 <= passed <= waiting.len(),
                names_view(self.queue@) == waiting.skip(passed),
                self.jobs@ == registry,
                self.data_store@ == sets,
                self.metrics == counters,
                self.start_time == start,
                distinct_ids(registry),
                one_runs_at_most(registry),
                distinct_names(sets),
                registry == old(self).jobs(),
                waiting == old(self).queue(),
                sets == old(self).store(),
                counters == old(self).metrics(),
                start == old(self).start_time(),
                run == running_position(registry, 0),
                run <= registry.len(),
                run < registry.len() ==> registry[run as int].status is Running,
                forall|i: int| 0 <= i < run ==> !((#[trigger] registry[i]).status is Running),
                next_ready(waiting, registry, 0) == next_ready(waiting, registry, passed),
            decreases self.queue.len(),
        {
            let ghost rest = names_view(self.queue@);
            assert(rest.len() == waiting.len() - passed);
            assert(rest[0] == waiting[passed]);
            let ghost held = self.queue@;
            let at = self.position(self.queue[0].as_str());
            let takes = at < self.jobs.len() && !self.jobs[at].status.is_terminal();
            if takes && run < self.jobs.len() && run != at {
                assert(next_ready(waiting, registry, 0) == passed);
                return None;
            }
            let id = self.queue.remove(0);
            assert(id@ == rest[0]);
            assert forall|i: int| 0 <= i < self.queue@.len() implies names_view(self.queue@)[i]
                == waiting.skip(passed + 1)[i] by {
                assert(self.queue@[i] == held[i + 1]);
                assert(rest[i + 1] == waiting[passed + i + 1]);
            }
            assert(names_view(self.queue@) =~= waiting.skip(passed + 1));
            if takes {
                assert(next_ready(waiting, registry, 0) == passed);
                let job = self.jobs.remove(at);
                let job = job.take_up(now);
                proof {
                    lemma_update_advances(registry, at as int, job);
                    if run == registry.len() {
                        assert forall|i: int| 0 <= i < registry.len() && i != at implies !((
                        #[trigger] registry[i]).status is Running) by {}
                    }
                }
                self.jobs.insert(at, job);
                assert(self.jobs@ =~= registry.update(at as int, registry[at as int].taken_up(now)));
                return Some(id);
            }
            proof {
                passed = passed + 1;
            }
        }
        assert(names_view(self.queue@).len() == 0);
        None
    }

    /// Records what a run of the pipeline made of the running job called
    /// `job_id`.
    ///
    /// Fails with `NotFound` where the registry holds no such job and with
    /// `InvalidState` where the job does not run (it was cancelled
    /// meanwhile); nothing changes then. Otherwise the job takes the
    /// results and counts of the run. After a run that went well the job
    /// keeps running and the emission for its output comes back; after a
    /// run that failed, a failure is recorded at `now` and its error comes
    /// back.
    pub fn record_outcome(&mut self, job_id: &str, outcome: Result<JobOutput, JobFailure>, now: Timestamp) -> (r:
        Result<Emission, ProcessorError>)
        requires
            old(self).wf(),
        ensures
            final(self).wf(),
            advances(old(self).jobs(), final(self).jobs()),
            final(self).store() == old(self).store(),
            final(self).start_time() == old(self).start_time(),
            ({
                let jobs = old(self).jobs();
                let at = job_position(jobs, job_id@, 0);
                if !known(jobs, job_id@) {
                    &&& r matches Err(ProcessorError::NotFound(Missing::Job))
                    &&& final(self).jobs() == jobs
                    &&& final(self).queue() == old(self).queue()
                    &&& final(self).metrics() == old(self).metrics()
                } else if jobs[at].status != JobStatus::Running {
                    &&& r matches Err(ProcessorError::InvalidState)
                    &&& final(self).jobs() == jobs
                    &&& final(self).queue() == old(self).queue()
                    &&& final(self).metrics() == old(self).metrics()
                } else {
                    match outcome {
                        Ok(output) => {
                            let recorded = jobs[at].with_outcome(
                                output.results,
                                output.input_count,
                                output.records@.len() as usize,
                            );
                            &&& r matches Ok(emission)
                            &&& emits(emission, output.records, jobs[at].configuration.output_format)
                            &&& final(self).jobs() == jobs.update(at, recorded)
                            &&& final(self).queue() == old(self).queue()
                            &&& final(self).metrics() == old(self).metrics()
                        },
                        Err(failure) => {
                            let recorded = jobs[at].with_outcome(failure.results, failure.input_count, 0);
                            &&& r matches Err(e)
                            &&& e == failure.error
                            &&& DataProcessor::failure_recorded(old(self), final(self), at, recorded, now)
                        },
                    }
                }
            }),
    {
        let at = self.position(job_id);
        if at >= self.jobs.len() {
            return Err(ProcessorError::NotFound(Missing::Job));
        }
        match self.jobs[at].status {
            JobStatus::Running => {},
            _ => {
                return Err(ProcessorError::InvalidState);
            },
        }
        let ghost registry = self.jobs@;
        let ghost waiting = names_view(self.queue@);
        let job = self.jobs.remove(at);
        match outcome {
            Ok(output) => {
                let JobOutput { results, records, input_count } = output;
                let job = job.record(results, input_count, records.len());
                let emission = output_results(records, &job.configuration.output_format);
                proof {
                    lemma_update_advances(registry, at as int, job);
                }
                self.jobs.insert(at, job);
                assert(self.jobs@ =~= registry.update(at as int, job));
                Ok(emission)
            },
            Err(failure) => {
                let JobFailure { results, error, input_count } = failure;
                let job = job.record(results, input_count, 0);
                self.settle_failure(at, job, now, Ghost(registry));
                Err(error)
            },
        }
    }

    /// Records a failure at `now` for `job`, which was taken out of the
    /// registry at position `at`, and puts the job back.
    fn settle_failure(&mut self, at: usize, job: ProcessingJob, now: Timestamp, Ghost(registry): Ghost<
        Seq<ProcessingJob>,
    >)
        requires
            0 <= at < registry.len(),
            old(self).jobs() == registry.remove(at as int),
            distinct_ids(registry),
            job.id@ == registry[at as int].id@,
            job.status == JobStatus::Running,
            registry[at as int].status == JobStatus::Running,
        ensures
            final(self).jobs() == registry.update(at as int, job.after_failure(now)),
            distinct_ids(final(self).jobs()),
            advances(registry, final(self).jobs()),
            final(self).store() == old(self).store(),
            final(self).start_time() == old(self).start_time(),
            if job.will_retry() {
                &&& final(self).queue() == seq![job.id@] + old(self).queue()
                &&& final(self).metrics() == old(self).metrics()
            } else {
                &&& final(self).queue() == old(self).queue()
                &&& final(self).metrics() == old(self).metrics().after_job(0, job.running_time(now), true)
            },
    {
        let ghost waiting = names_view(self.queue@);
        let time = job.elapsed(&now);
        let id = job.id.clone();
        let (job, retry) = job.fail(now);
        proof {
            lemma_update_advances(registry, at as int, job);
        }
        self.jobs.insert(at, job);
        assert(self.jobs@ =~= registry.update(at as int, job));
        if retry {
            self.queue.insert(0, id);
            assert(names_view(self.queue@) =~= seq![id@] + waiting);
        } else {
            self.metrics.record_job(0, time, true);
        }
    }

    /// Records at `now` what the sink made of the output of the running
    /// job called `job_id`.
    ///
    /// Fails with `NotFound` where the registry holds no such job and with
    /// `InvalidState` where the job does not run (it was cancelled
    /// meanwhile); nothing changes then. Where the sink succeeded the job
    /// is completed and counts in the metrics; where it failed a failure
    /// is recorded. Returns the job's new state.
    pub fn finish_job(&mut self, job_id: &str, sink: Result<(), ProcessorError>, now: Timestamp) -> (r: Result<
        JobStatus,
        ProcessorError,
    >)
        requires
            old(self).wf(),
        ensures
            final(self).wf(),
            advances(old(self).jobs(), final(self).jobs()),
            final(self).store() == old(self).store(),
            final(self).start_time() == old(self).start_time(),
            ({
                let jobs = old(self).jobs();
                let at = job_position(jobs, job_id@, 0);
                if !known(jobs, job_id@) {
                    &&& r matches Err(ProcessorError::NotFound(Missing::Job))
                    &&& final(self).jobs() == jobs
                    &&& final(self).queue() == old(self).queue()
                    &&& final(self).metrics() == old(self).metrics()
                } else if jobs[at].status != JobStatus::Running {
                    &&& r matches Err(ProcessorError::InvalidState)
                    &&& final(self).jobs() == jobs
                    &&& final(self).queue() == old(self).queue()
                    &&& final(self).metrics() == old(self).metrics()
                } else if sink is Ok {
                    &&& r == Ok::<JobStatus, ProcessorError>(JobStatus::Completed)
                    &&& final(self).jobs() == jobs.update(at, jobs[at].after_success(now))
                    &&& final(self).queue() == old(self).queue()
                    &&& final(self).metrics() == old(self).metrics().after_job(
                        jobs[at].processed_count,
                        jobs[at].running_time(now),
                        false,
                    )
                } else {
                    &&& r matches Ok(status)
                    &&& status == jobs[at].after_failure(now).status
                    &&& DataProcessor::failure_recorded(old(self), final(self), at, jobs[at], now)
                }
            }),
    {
        let at = self.position(job_id);
        if at >= self.jobs.len() {
            return Err(ProcessorError::NotFound(Missing::Job));
        }
        match self.jobs[at].status {
            JobStatus::Running => {},
            _ => {
                return Err(ProcessorError::InvalidState);
            },
        }
        let ghost registry = self.jobs@;
        let job = self.jobs.remove(at);
        match sink {
            Ok(_) => {
                let time = job.elapsed(&now);
                let count = job.processed_count;
                let job = job.complete(now);
                proof {
                    lemma_update_advances(registry, at as int, job);
                }
                self.jobs.insert(at, job);
                assert(self.jobs@ =~= registry.update(at as int, job));
                self.metrics.record_job(count, time, false);
                Ok(JobStatus::Completed)
            },
            Err(_) => {
                let retry = (job.error_count as u128) < (job.configuration.retry_attempts as u128);
                self.settle_failure(at, job, now, Ghost(registry));
                if retry {
                    Ok(JobStatus::Running)
                } else {
                    Ok(JobStatus::Failed)
                }
            },
        }
    }
}

/// The number of jobs that are pending or running.
pub open spec fn active_count(jobs: Seq<ProcessingJob>) -> int
    decreases jobs.len(),
{
    if jobs.len() == 0 {
        0
    } else if jobs.last().status.terminal() {
        active_count(jobs.drop_last())
    } else {
        active_count(jobs.drop_last()) + 1
    }
}

/// Whether the store `after` is the store `before` with the payloads
/// ingested under `name`: the set of that name holds a record for each
/// payload, in order, and every other set is as it was.
pub open spec fn loaded(
    before: Seq<(Seq<char>, Seq<Record>)>,
    after: Seq<(Seq<char>, Seq<Record>)>,
    name: Seq<char>,
    values: Seq<Json>,
) -> bool {
    &&& source_from(after, name, 0) matches Some(records)
    &&& after == put(before, name, records)
    &&& records.len() == values.len()
    &&& forall|i: int| 0 <= i < records.len() ==> ingested(#[trigger] records[i], values[i], name)
}

impl DataProcessor {
    /// Makes a record of each payload and stores the records under
    /// `source_id`, in place of the set of that name if there is one.
    /// Returns the number of records.
    pub fn store_values(&mut self, source_id: &str, values: Vec<DataValue>) -> (count: usize)
        requires
            old(self).wf(),
        ensures
            final(self).wf(),
            final(self).jobs() == old(self).jobs(),
            final(self).queue() == old(self).queue(),
            final(self).metrics() == old(self).metrics(),
            final(self).start_time() == old(self).start_time(),
            count == values@.len(),
            loaded(old(self).store(), final(self).store(), source_id@, items_view(values@)),
    {
        let records = new_records(source_id, values);
        let count = records.len();
        proof {
            lemma_put_get(self.data_store@, source_id@, records_view(records@));
        }
        self.data_store.insert(source_id.to_owned(), records);
        count
    }

    /// Ingests a file under `source_id`, given the file's content, or
    /// nothing where there is no such file. The path's extension says how
    /// to read the content: `.csv` is delimited text whose first row names
    /// the fields, `.json` holds a JSON value on each line, and any other
    /// file holds no records. Returns the number of records. Fails, and
    /// changes nothing, with `NotFound` where there is no file and with
    /// `ParseError` where the content is malformed: delimited text that
    /// cannot be read, or a line of a `.json` file that is no JSON.
    pub fn load_data_from_file(&mut self, source_id: &str, file_path: &str, content: Option<&str>) -> (r:
        Result<usize, ProcessorError>)
        requires
            old(self).wf(),
        ensures
            final(self).wf(),
            final(self).jobs() == old(self).jobs(),
            final(self).queue() == old(self).queue(),
            final(self).metrics() == old(self).metrics(),
            final(self).start_time() == old(self).start_time(),
            match r {
                Ok(count) => {
                    &&& content matches Some(text)
                    &&& file_values(file_path@, text@) matches Some(values)
                    &&& count == values.len()
                    &&& loaded(old(self).store(), final(self).store(), source_id@, values)
                },
                Err(ProcessorError::NotFound(missing)) => {
                    &&& missing == Missing::File
                    &&& content is None
                    &&& final(self).store() == old(self).store()
                },
                Err(ProcessorError::ParseError(_)) => {
                    &&& content matches Some(text)
                    &&& file_values(file_path@, text@) is None
                    &&& final(self).store() == old(self).store()
                },
                Err(_) => false,
            },
    {
        let text = match content {
            Some(text) => text,
            None => {
                return Err(ProcessorError::NotFound(Missing::File));
            },
        };
        match read_file_values(file_path, text) {
            Ok(values) => Ok(self.store_values(source_id, values)),
            Err(e) => Err(e),
        }
    }

    /// Ingests the answer of a remote endpoint under `source_id`: the
    /// items of an array, the items of the array in the `data` field of an
    /// object, or else the answer itself as one record. Returns the number
    /// of records. Fails, and changes nothing, with `RemoteError` where
    /// the status is no success and with `ParseError` where the body is
    /// not JSON.
    pub fn load_data_from_api(&mut self, source_id: &str, status: u16, body: &str) -> (r: Result<
        usize,
        ProcessorError,
    >)
        requires
            old(self).wf(),
        ensures
            final(self).wf(),
            final(self).jobs() == old(self).jobs(),
            final(self).queue() == old(self).queue(),
            final(self).metrics() == old(self).metrics(),
            final(self).start_time() == old(self).start_time(),
            match r {
                Ok(count) => {
                    &&& success(status)
                    &&& answer_values(body@) matches Some(values)
                    &&& count == values.len()
                    &&& loaded(old(self).store(), final(self).store(), source_id@, values)
                },
                Err(ProcessorError::RemoteError { status: s }) => {
                    &&& !success(status)
                    &&& s == status
                    &&& final(self).store() == old(self).store()
                },
                Err(ProcessorError::ParseError(_)) => {
                    &&& success(status)
                    &&& answer_values(body@) is None
                    &&& final(self).store() == old(self).store()
                },
                Err(_) => false,
            },
    {
        match read_answer_values(status, body) {
            Ok(values) => Ok(self.store_values(source_id, values)),
            Err(e) => Err(e),
        }
    }

    /// The metrics snapshot: all of its fields as of one instant.
    pub fn get_metrics(&self) -> (m: SystemMetrics)
        ensures
            m == self.metrics(),
    {
        self.metrics
    }

    /// Counts the jobs that are pending or running.
    pub fn active_jobs(&self) -> (n: usize)
        ensures
            n == active_count(self.jobs()),
    {
        let mut n: usize = 0;
        let mut i: usize = 0;
        assert(self.jobs@.take(0) =~= Seq::<ProcessingJob>::empty());
        while i < self.jobs.len()
            invariant
                i <= self.jobs.len(),
                n <= i,
                n == active_count(self.jobs@.take(i as int)),
            decreases self.jobs.len() - i,
        {
            assert(self.jobs@.take(i + 1).drop_last() =~= self.jobs@.take(i as int));
            if !self.jobs[i].status.is_terminal() {
                n += 1;
            }
            i += 1;
        }
        assert(self.jobs@.take(self.jobs@.len() as int) =~= self.jobs@);
        n
    }

    /// Refreshes the metrics at `now`: the uptime since the service
    /// started, the gauges from the sampler's measurements, and the number
    /// of active jobs. The running totals stay as they are.
    pub fn update_metrics(&mut self, now: Timestamp, sample: ResourceSample)
        requires
            old(self).wf(),
        ensures
            final(self).wf(),
            final(self).jobs() == old(self).jobs(),
            final(self).queue() == old(self).queue(),
            final(self).store() == old(self).store(),
            final(self).start_time() == old(self).start_time(),
            final(self).metrics() == old(self).metrics().refreshed(
                old(self).start_time(),
                now,
                sample,
                active_count(old(self).jobs()) as usize,
            ),
    {
        let active = self.active_jobs();
        let start = self.start_time;
        self.metrics.refresh(start, now, sample, active);
    }

    /// Whether `after` and `r` are what one turn of the engine at the
    /// instant `now` makes of `before`.
    ///
    /// Where no job waits, nothing changes but the queue, which is left
    /// empty; where another job runs than the first of the queue that the
    /// engine could take up, nothing changes but the queue, which loses
    /// the jobs before that one. Else that job is taken up at `now`, and
    /// the jobs before it are dropped from the queue; no other job
    /// changes. Where the pipeline makes the output,
    /// the job keeps running with a result for each operation, and `r`
    /// holds the emission. Where the pipeline fails, the job holds the
    /// results of the stages that ran before the failure and a failure is
    /// recorded at `now`: a job that is run again goes to the front of the
    /// queue.
    pub open spec fn turn_made(
        before: &DataProcessor,
        after: &DataProcessor,
        r: Option<(String, Result<Emission, ProcessorError>)>,
        now: Timestamp,
    ) -> bool {
        let k = next_ready(before.queue(), before.jobs(), 0);
        &&& after.jobs().len() == before.jobs().len()
        &&& after.store() == before.store()
        &&& match r {
            None => {
                &&& after.jobs() == before.jobs()
                &&& after.metrics() == before.metrics()
                &&& if k == before.queue().len() {
                    after.queue().len() == 0
                } else {
                    before.busy(k) && after.queue() == before.queue().skip(k)
                }
            },
            Some((id, outcome)) => {
                let at = job_position(before.jobs(), id@, 0);
                let taken = before.jobs()[at].taken_up(now);
                let job = after.jobs()[at];
                let operations = taken.configuration.operations@;
                let store = before.store();
                let rest = before.queue().skip(k + 1);
                &&& 0 <= k < before.queue().len()
                &&& id@ == before.queue()[k]
                &&& 0 <= at < before.jobs().len()
                &&& !before.busy(k)
                &&& taken.status == JobStatus::Running
                &&& forall|i: int|
                    0 <= i < before.jobs().len() && i != at ==> #[trigger] after.jobs()[i] == before.jobs()[i]
                &&& match outcome {
                    Ok(emission) => {
                        &&& input_of(store) matches Some(input)
                        &&& run_pipeline(operations, input, store) matches Some(output)
                        &&& emits_models(emission, output, taken.configuration.output_format)
                        &&& job == taken.with_outcome(job.results, job.input_count, job.processed_count)
                        &&& job.input_count == input.len()
                        &&& job.processed_count == output.len()
                        &&& job.results@.len() == operations.len()
                        &&& results_match(job.results@, operations, input, store, now)
                        &&& after.queue() == rest
                        &&& after.metrics() == before.metrics()
                    },
                    Err(e) => {
                        &&& job == taken.with_outcome(job.results, job.input_count, 0).after_failure(now)
                        &&& after.queue() == if taken.will_retry() {
                            seq![id@] + rest
                        } else {
                            rest
                        }
                        &&& after.metrics() == if taken.will_retry() {
                            before.metrics()
                        } else {
                            before.metrics().after_job(0, taken.running_time(now), true)
                        }
                        &&& match e {
                            ProcessorError::NoInputData => {
                                &&& input_of(store) is None
                                &&& job.results@.len() == 0
                                &&& job.input_count == 0
                            },
                            ProcessorError::NotFound(missing) => {
                                &&& missing == Missing::Source
                                &&& input_of(store) matches Some(input)
                                &&& job.input_count == input.len()
                                &&& results_match(job.results@, operations, input, store, now)
                                &&& job.results@.len() < operations.len()
                                &&& run_prefix(operations, input, store, (job.results@.len() + 1) as int) is None
                                &&& run_pipeline(operations, input, store) is None
                            },
                            ProcessorError::Timeout => {
                                &&& taken.configuration.timeout_seconds > 0
                                &&& input_of(store) matches Some(input)
                                &&& job.input_count == input.len()
                                &&& results_match(job.results@, operations, input, store, now)
                                &&& job.results@.len() < operations.len()
                            },
                            _ => false,
                        }
                    },
                }
            },
        }
    }

    /// One turn of the engine at the instant `now`: takes up the next job
    /// that waits, runs its pipeline, and records how that went. Returns
    /// nothing where no job waits; else the job's identifier and either
    /// the emission for the sink (the job keeps running until `finish_job`
    /// hears of the sink) or the error of the failure recorded. The
    /// instant `now` is the job's start, where it starts, and the instant
    /// of the errors and of the failure recorded.
    pub fn process_next_job_at(&mut self, now: Timestamp) -> (r: Option<(String, Result<Emission, ProcessorError>)>)
        requires
            old(self).wf(),
        ensures
            final(self).wf(),
            advances(old(self).jobs(), final(self).jobs()),
            final(self).start_time() == old(self).start_time(),
            DataProcessor::turn_made(old(self), final(self), r, now),
    {
        let ghost registry = self.jobs@;
        let id = match self.start_next_job(now) {
            Some(id) => id,
            None => {
                return None;
            },
        };
        let ghost started = self.jobs@;
        proof {
            lemma_job_position(registry, id@, 0);
            lemma_same_positions(registry, started, id@, 0);
        }
        let at = self.position(id.as_str());
        let outcome = execute_processing_job(&self.jobs[at], &self.data_store, now);
        proof {
            if outcome is Err && outcome->Err_0.error is NotFound {
                let input = input_of(self.data_store@).unwrap();
                lemma_prefix_fails(
                    started[at as int].configuration.operations@,
                    input,
                    self.data_store@,
                    (outcome->Err_0.results@.len() + 1) as int,
                    started[at as int].configuration.operations@.len() as int,
                );
            }
        }
        let ghost run = outcome;
        let result = self.record_outcome(id.as_str(), outcome, now);
        proof {
            lemma_advances_transitive(registry, started, self.jobs@);
            if run is Ok {
                assert(records_view(run->Ok_0.records@).len() == run->Ok_0.records.len());
            }
        }
        Some((id, result))
    }

    /// One turn of the engine, at the current instant: takes up the next
    /// job that waits, runs its pipeline, and records how that went.
    /// Returns nothing where no job waits; else the job's identifier and
    /// either the emission for the sink (the job keeps running until
    /// `finish_job` hears of the sink) or the error of the failure
    /// recorded. The turn is the turn of `process_next_job_at` at the
    /// instant that the clock reads.
    pub fn process_next_job(&mut self) -> (r: Option<(String, Result<Emission, ProcessorError>)>)
        requires
            old(self).wf(),
        ensures
            final(self).wf(),
            advances(old(self).jobs(), final(self).jobs()),
            final(self).start_time() == old(self).start_time(),
            exists|now: Timestamp| DataProcessor::turn_made(old(self), final(self), r, now),
    {
        let now = Timestamp::now();
        let r = self.process_next_job_at(now);
        proof {
            assert(DataProcessor::turn_made(old(self), self, r, now));
        }
        r
    }
}

/// Two registries whose jobs have the same identifiers at the same places
/// hold a job of a name at the same position.
pub proof fn lemma_same_positions(a: Seq<ProcessingJob>, b: Seq<ProcessingJob>, id: Seq<char>, i: int)
    requires
        a.len() == b.len(),
        forall|k: int| 0 <= k < a.len() ==> (#[trigger] b[k]).id@ == a[k].id@,
        0 <= i,
    ensures
        job_position(a, id, i) == job_position(b, id, i),
    decreases a.len() - i,
{
    if i < a.len() {
        assert(b[i].id@ == a[i].id@);
        if a[i].id@ != id {
            lemma_same_positions(a, b, id, i + 1);
        }
    }
}

/// A registry that advances twice has advanced.
pub proof fn lemma_advances_transitive(a: Seq<ProcessingJob>, b: Seq<ProcessingJob>, c: Seq<ProcessingJob>)
    requires
        advances(a, b),
        advances(b, c),
    ensures
        advances(a, c),
{
    assert forall|i: int| 0 <= i < a.len() implies (#[trigger] c[i]).id@ == a[i].id@ && a[i].status.reaches(
        c[i].status,
    ) by {
        assert(b[i].id@ == a[i].id@);
        assert(c[i].id@ == b[i].id@);
    }
}

/// A registry has advanced to itself.
pub proof fn lemma_advances_reflexive(jobs: Seq<ProcessingJob>)
    ensures
        advances(jobs, jobs),
{
}

/// The state of a job changes only along the state graph. Whatever calls
/// lead from one registry to another, a job that ran before is not pending
/// after, and a job that was in a terminal state is in that state still.
pub proof fn lemma_status_never_regresses(before: Seq<ProcessingJob>, after: Seq<ProcessingJob>, i: int)
    requires
        advances(before, after),
        0 <= i < before.len(),
    ensures
        after[i].id@ == before[i].id@,
        before[i].status.reaches(after[i].status),
        before[i].status is Running ==> !(after[i].status is Pending),
        before[i].status.terminal() ==> after[i].status == before[i].status,
{
}

/// A job can be cancelled only once: after a job in no terminal state was
/// cancelled, the registry holds it in a terminal state, so that a second
/// cancellation fails with `InvalidState`.
pub proof fn lemma_cancel_only_once(jobs: Seq<ProcessingJob>, id: Seq<char>)
    requires
        known(jobs, id),
        !jobs[job_position(jobs, id, 0)].status.terminal(),
    ensures
        ({
            let at = job_position(jobs, id, 0);
            let after = jobs.update(at, ProcessingJob { status: JobStatus::Cancelled, ..jobs[at] });
            &&& known(after, id)
            &&& job_position(after, id, 0) == at
            &&& after[at].status.terminal()
        }),
{
    lemma_job_position(jobs, id, 0);
    let at = job_position(jobs, id, 0);
    let after = jobs.update(at, ProcessingJob { status: JobStatus::Cancelled, ..jobs[at] });
    assert forall|k: int| 0 <= k < jobs.len() implies (#[trigger] after[k]).id@ == jobs[k].id@ by {}
    lemma_same_positions(jobs, after, id, 0);
}

} // verus!
