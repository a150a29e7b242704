//! The metrics aggregator: a snapshot of service-wide counters.

use vstd::prelude::*;
use crate::clock::Timestamp;

verus! {

/// The largest value of a gauge: the whole, in hundredths of a percent.
pub const FULL: u32 = 10000;

/// What the resource sampler measured, each in hundredths of a percent.
#[derive(Clone, Copy, Debug, PartialEq, Eq, Structural)]
pub struct ResourceSample {
    pub cpu_usage: u32,
    pub memory_usage: u32,
    pub disk_usage: u32,
}

/// A snapshot of the service's counters. Usages and the error rate are in
/// hundredths of a percent.
#[derive(Clone, Copy, Debug, PartialEq, Eq, Structural)]
pub struct SystemMetrics {
    pub cpu_usage: u32,
    pub memory_usage: u32,
    pub disk_usage: u32,
    /// Jobs that are pending or running.
    pub active_jobs: usize,
    /// Records handed on by the jobs that finished.
    pub total_records_processed: u64,
    /// The mean running time of the jobs that finished.
    pub average_processing_time_ms: u64,
    /// The share of failed jobs among the jobs that finished.
    pub error_rate: u32,
    pub uptime_seconds: u64,
    /// Jobs that completed or failed.
    pub jobs_finished: u64,
    /// Jobs that failed.
    pub jobs_failed: u64,
    /// The running time of all jobs that finished.
    pub total_processing_time_ms: u64,
}

/// The sum, or the largest number where the sum is larger.
pub open spec fn capped_sum(a: int, b: int) -> int {
    if a + b > u64::MAX {
        u64::MAX as int
    } else {
        a + b
    }
}

/// A gauge's value: the sample, or the whole where the sample is more.
pub open spec fn gauge(sample: u32) -> u32 {
    if sample > FULL {
        FULL
    } else {
        sample
    }
}

/// The whole seconds from `start` to `now`; zero where `now` is earlier.
pub open spec fn uptime(start: Timestamp, now: Timestamp) -> int {
    let ms = start.millis_until(now);
    if ms > 0 {
        if ms / 1000 > u64::MAX {
            u64::MAX as int
        } else {
            ms / 1000
        }
    } else {
        0
    }
}

impl SystemMetrics {
    /// The snapshot after a job finished that handed on `records` records,
    /// ran for `elapsed_ms` milliseconds, and failed or not.
    pub open spec fn after_job(self, records: usize, elapsed_ms: u64, failed: bool) -> SystemMetrics {
        let finished = capped_sum(self.jobs_finished as int, 1);
        let failures = if failed {
            capped_sum(self.jobs_failed as int, 1)
        } else {
            self.jobs_failed as int
        };
        let time = capped_sum(self.total_processing_time_ms as int, elapsed_ms as int);
        SystemMetrics {
            total_records_processed: capped_sum(self.total_records_processed as int, records as int) as u64,
            jobs_finished: finished as u64,
            jobs_failed: failures as u64,
            total_processing_time_ms: time as u64,
            average_processing_time_ms: (time / finished) as u64,
            error_rate: if failures >= finished {
                FULL
            } else {
                ((failures * FULL) / finished) as u32
            },
            ..self
        }
    }

    /// The snapshot after a refresh at `now` of a service that started at
    /// `start`, with the sampler's measurements and the number of active
    /// jobs.
    pub open spec fn refreshed(self, start: Timestamp, now: Timestamp, sample: ResourceSample, active: usize) -> SystemMetrics {
        SystemMetrics {
            cpu_usage: gauge(sample.cpu_usage),
            memory_usage: gauge(sample.memory_usage),
            disk_usage: gauge(sample.disk_usage),
            active_jobs: active,
            uptime_seconds: uptime(start, now) as u64,
            ..self
        }
    }

    /// The snapshot of a service that has done nothing yet: every counter
    /// is zero.
    pub open spec fn zero() -> SystemMetrics {
        SystemMetrics {
            cpu_usage: 0,
            memory_usage: 0,
            disk_usage: 0,
            active_jobs: 0,
            total_records_processed: 0,
            average_processing_time_ms: 0,
            error_rate: 0,
            uptime_seconds: 0,
            jobs_finished: 0,
            jobs_failed: 0,
            total_processing_time_ms: 0,
        }
    }

    /// The snapshot of a service that has done nothing yet.
    pub fn new() -> (m: SystemMetrics)
        ensures
            m == SystemMetrics::zero(),
    {
        SystemMetrics {
            cpu_usage: 0,
            memory_usage: 0,
            disk_usage: 0,
            active_jobs: 0,
            total_records_processed: 0,
            average_processing_time_ms: 0,
            error_rate: 0,
            uptime_seconds: 0,
            jobs_finished: 0,
            jobs_failed: 0,
            total_processing_time_ms: 0,
        }
    }

    /// Counts a finished job into the running totals.
    pub fn record_job(&mut self, records: usize, elapsed_ms: u64, failed: bool)
        ensures
            *final(self) == old(self).after_job(records, elapsed_ms, failed),
    {
        let finished: u64 = self.jobs_finished.saturating_add(1);
        let failures: u64 = if failed {
            self.jobs_failed.saturating_add(1)
        } else {
            self.jobs_failed
        };
        let time: u64 = self.total_processing_time_ms.saturating_add(elapsed_ms);
        self.total_records_processed = self.total_records_processed.saturating_add(records as u64);
        self.jobs_finished = finished;
        self.jobs_failed = failures;
        self.total_processing_time_ms = time;
        self.average_processing_time_ms = time / finished;
        self.error_rate = if failures >= finished {
            FULL
        } else {
            let share: u128 = (failures as u128 * FULL as u128) / (finished as u128);
            assert(share < FULL) by (nonlinear_arith)
                requires
                    share == (failures as int * FULL as int) / (finished as int),
                    0 <= failures < finished,
                    FULL == 10000,
            ;
            share as u32
        };
    }

    /// Refreshes the gauges, the uptime and the number of active jobs.
    pub fn refresh(&mut self, start: Timestamp, now: Timestamp, sample: ResourceSample, active: usize)
        ensures
            *final(self) == old(self).refreshed(start, now, sample, active),
    {
        let ms: u128 = start.elapsed_ms(&now);
        let secs: u128 = ms / 1000;
        self.uptime_seconds = if secs > u64::MAX as u128 {
            u64::MAX
        } else {
            secs as u64
        };
        self.cpu_usage = clamp(sample.cpu_usage);
        self.memory_usage = clamp(sample.memory_usage);
        self.disk_usage = clamp(sample.disk_usage);
        self.active_jobs = active;
    }
}

/// A gauge's value for a sample.
pub fn clamp(sample: u32) -> (g: u32)
    ensures
        g == gauge(sample),
{
    if sample > FULL {
        FULL
    } else {
        sample
    }
}

} // verus!
