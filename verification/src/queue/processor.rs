//! The job processor: takes the most urgent pending job and runs it.
//!
//! Waiting between polls and stopping on a signal are the caller's part;
//! one call of `process_cycle` is one poll.
use vstd::prelude::*;

use super::repository::{
    by_priority, first_job_index, lemma_by_priority_members, lemma_first_job_index_found,
    lemma_pending_members, lemma_update_keeps_first_index, pending_jobs, InMemoryJobRepository,
};
use super::types::{Job, JobOutcome, JobPayload, JobResult, JobState};
use crate::clock::now_millis;

verus! {

/// Errors of the job queue.
#[derive(Debug, Clone)]
pub enum QueueError {
    NoRepository,
    Repository(String),
    JobNotFound(String),
    InvalidJobState(String),
    ExecutionFailed(String),
    ShutdownRequested,
    InvalidConfiguration(String),
}

/// The message of a queue error.
pub open spec fn queue_message(e: QueueError) -> Seq<char> {
    match e {
        QueueError::NoRepository => "No repository configured"@,
        QueueError::Repository(m) => "Repository error: "@ + m@,
        QueueError::JobNotFound(m) => "Job not found: "@ + m@,
        QueueError::InvalidJobState(m) => "Invalid job state: "@ + m@,
        QueueError::ExecutionFailed(m) => "Execution failed: "@ + m@,
        QueueError::ShutdownRequested => "Shutdown requested"@,
        QueueError::InvalidConfiguration(m) => "Invalid configuration: "@ + m@,
    }
}

impl QueueError {
    /// The message a user sees for this error.
    pub fn to_string(&self) -> (s: String)
        ensures
            s@ == queue_message(*self),
    {
        let (mut s, m) = match self {
            QueueError::NoRepository => return String::from_str("No repository configured"),
            QueueError::ShutdownRequested => return String::from_str("Shutdown requested"),
            QueueError::Repository(m) => (String::from_str("Repository error: "), m),
            QueueError::JobNotFound(m) => (String::from_str("Job not found: "), m),
            QueueError::InvalidJobState(m) => (String::from_str("Invalid job state: "), m),
            QueueError::ExecutionFailed(m) => (String::from_str("Execution failed: "), m),
            QueueError::InvalidConfiguration(m) => (String::from_str("Invalid configuration: "), m),
        };
        s.append(m.as_str());
        s
    }
}

pub type QueueResult<T> = Result<T, QueueError>;

/// Configuration of the job processor. The poll interval is in milliseconds.
#[derive(Debug, Clone)]
pub struct JobProcessorConfig {
    pub poll_interval_ms: u64,
    pub concurrency_limit: usize,
    pub max_retries: u32,
}

/// Whether a configuration is usable: a positive poll interval and at least
/// one concurrent job.
pub open spec fn config_valid(c: JobProcessorConfig) -> bool {
    c.poll_interval_ms > 0 && c.concurrency_limit > 0
}

impl JobProcessorConfig {
    /// Check the configuration: the poll interval first, then the concurrency limit.
    pub fn validate(&self) -> (r: QueueResult<()>)
        ensures
            self.poll_interval_ms == 0 ==> (r matches Err(QueueError::InvalidConfiguration(m)) && m@
                == "Poll interval must be non-zero"@),
            self.poll_interval_ms != 0 && self.concurrency_limit == 0 ==> (r matches Err(
                QueueError::InvalidConfiguration(m),
            ) && m@ == "Concurrency limit must be at least 1"@),
            config_valid(*self) ==> r is Ok,
    {
        if self.poll_interval_ms == 0 {
            return Err(QueueError::InvalidConfiguration(String::from_str("Poll interval must be non-zero")));
        }
        if self.concurrency_limit == 0 {
            return Err(
                QueueError::InvalidConfiguration(String::from_str("Concurrency limit must be at least 1")),
            );
        }
        Ok(())
    }
}

/// Runs pending jobs from a repository, most urgent first.
pub struct JobProcessor {
    repository: InMemoryJobRepository,
    config: JobProcessorConfig,
}

/// What one cycle does to the jobs `s`: nothing when no job is pending;
/// otherwise the most urgent pending job (the first of them when several
/// share its priority) is started at `started`, then completed at
/// `finished`.
pub open spec fn cycle_post(s: Seq<Job>, started: i64, finished: i64, s2: Seq<Job>) -> bool {
    let queue = by_priority(pending_jobs(s));
    if queue.len() == 0 {
        s2 == s
    } else {
        let id = queue[0].id@;
        match first_job_index(s, id) {
            Some(i) => s2 == s.update(
                i,
                Job { state: JobState::Completed { finished_at: finished }, updated_at: finished, ..s[i] },
            ),
            None => false,
        }
    }
}

impl JobProcessor {
    pub closed spec fn jobs(&self) -> Seq<Job> {
        self.repository.jobs()
    }

    pub closed spec fn settings(&self) -> JobProcessorConfig {
        self.config
    }

    /// A processor; refused when the configuration is not valid.
    pub fn new(repository: InMemoryJobRepository, config: JobProcessorConfig) -> (r: QueueResult<Self>)
        ensures
            config_valid(config) ==> (r matches Ok(p) && p.jobs() == repository.jobs() && p.settings()
                == config),
            !config_valid(config) ==> r is Err,
    {
        match config.validate() {
            Ok(()) => {},
            Err(e) => return Err(e),
        }
        Ok(JobProcessor { repository, config })
    }

    pub fn config(&self) -> (r: &JobProcessorConfig)
        ensures
            *r == self.settings(),
    {
        &self.config
    }

    /// The number of jobs running right now. A cycle runs its job to the
    /// end before it returns, so between calls no job is running.
    pub fn running_jobs(&self) -> (r: usize)
        ensures
            r == 0,
    {
        0
    }

    /// The repository the processor runs.
    pub fn repository(&self) -> (r: &InMemoryJobRepository)
        ensures
            r.jobs() == self.jobs(),
    {
        &self.repository
    }

    /// Run a job body. Every payload kind currently succeeds.
    fn execute_job_body(&self, job: &Job) -> (r: QueueResult<JobOutcome>)
        ensures
            r matches Ok(JobOutcome::Success),
    {
        match &job.payload {
            JobPayload::Pipeline { .. } => Ok(JobOutcome::Success),
            JobPayload::Task { .. } => Ok(JobOutcome::Success),
            JobPayload::Custom { .. } => Ok(JobOutcome::Success),
        }
    }

    /// The most urgent pending job, if any.
    fn poll_once(&self) -> (r: QueueResult<Option<Job>>)
        ensures
            by_priority(pending_jobs(self.jobs())).len() == 0 ==> r == Ok::<Option<Job>, QueueError>(None),
            by_priority(pending_jobs(self.jobs())).len() > 0 ==> r == Ok::<Option<Job>, QueueError>(
                Some(by_priority(pending_jobs(self.jobs()))[0]),
            ),
    {
        let jobs = match self.repository.poll_pending_jobs(1) {
            Ok(v) => v,
            Err(e) => return Err(e),
        };
        if jobs.len() == 0 {
            Ok(None)
        } else {
            Ok(Some(jobs[0].clone()))
        }
    }

    /// Mark a job of the repository running at `started`.
    fn start_job(&mut self, job: Job, started: i64) -> (r: QueueResult<Job>)
        requires
            first_job_index(old(self).jobs(), job.id@) matches Some(i) && 0 <= i < old(self).jobs().len()
                && forall|j: int| 0 <= j < i ==> old(self).jobs()[j].id@ != job.id@,
        ensures
            final(self).settings() == old(self).settings(),
            first_job_index(old(self).jobs(), job.id@) matches Some(i) && final(self).jobs() == old(self).jobs().update(
                i,
                Job { state: JobState::Running { started_at: started }, updated_at: started, ..old(self).jobs()[i] },
            ) && first_job_index(final(self).jobs(), job.id@) == Some(i),
            r matches Ok(j) && j.id == job.id && j.payload == job.payload,
    {
        let ghost s = self.repository.jobs();
        let ghost i = first_job_index(s, job.id@)->0;
        let mut job = job;
        job.state = JobState::Running { started_at: started };
        match self.repository.update_job_state_at(job.id.as_str(), job.state.clone(), started) {
            Ok(()) => {},
            Err(e) => return Err(e),
        }
        proof {
            lemma_update_keeps_first_index(
                s,
                job.id@,
                i,
                Job { state: JobState::Running { started_at: started }, updated_at: started, ..s[i] },
            );
        }
        Ok(job)
    }

    /// Mark a running job of the repository completed at `finished`, its
    /// body having succeeded, and report it with the time from `started` to
    /// `finished`.
    fn finish_job(&mut self, job: Job, outcome: JobOutcome, started: i64, finished: i64) -> (r: QueueResult<JobResult>)
        requires
            first_job_index(old(self).jobs(), job.id@) matches Some(i) && 0 <= i < old(self).jobs().len(),
        ensures
            final(self).settings() == old(self).settings(),
            first_job_index(old(self).jobs(), job.id@) matches Some(i) && final(self).jobs() == old(self).jobs().update(
                i,
                Job {
                    state: JobState::Completed { finished_at: finished },
                    updated_at: finished,
                    ..old(self).jobs()[i]
                },
            ),
            r matches Ok(res) && res.job_id == job.id && res.outcome == outcome && res.execution_time_ms == (
            if started <= finished && finished - started <= u64::MAX {
                (finished - started) as u64
            } else {
                0
            }),
    {
        match self.repository.update_job_state_at(
            job.id.as_str(),
            JobState::Completed { finished_at: finished },
            finished,
        ) {
            Ok(()) => {},
            Err(e) => return Err(e),
        }
        let execution_time_ms: u64 = if finished >= started && (finished as i128) - (started as i128) <= u64::MAX as i128 {
            ((finished as i128) - (started as i128)) as u64
        } else {
            0
        };
        Ok(JobResult { job_id: job.id, outcome, execution_time_ms })
    }

    /// Run a job of the repository: mark it running at `started`, run its
    /// body, and mark it completed at `finished`.
    fn execute_job(&mut self, job: Job, started: i64, finished: i64) -> (r: QueueResult<JobResult>)
        requires
            first_job_index(old(self).jobs(), job.id@) matches Some(i) && 0 <= i < old(self).jobs().len()
                && forall|j: int| 0 <= j < i ==> old(self).jobs()[j].id@ != job.id@,
        ensures
            final(self).settings() == old(self).settings(),
            first_job_index(old(self).jobs(), job.id@) matches Some(i) && final(self).jobs() == old(self).jobs().update(
                i,
                Job {
                    state: JobState::Completed { finished_at: finished },
                    updated_at: finished,
                    ..old(self).jobs()[i]
                },
            ),
            r matches Ok(res) && res.job_id == job.id && res.outcome is Success && res.execution_time_ms == (if started
                <= finished && finished - started <= u64::MAX {
                (finished - started) as u64
            } else {
                0
            }),
    {
        let ghost s = self.repository.jobs();
        let ghost i = first_job_index(s, job.id@)->0;
        let job = match self.start_job(job, started) {
            Ok(j) => j,
            Err(e) => return Err(e),
        };
        let ghost s1 = self.repository.jobs();
        let outcome = match self.execute_job_body(&job) {
            Ok(o) => o,
            Err(e) => return Err(e),
        };
        let r = self.finish_job(job, outcome, started, finished);
        proof {
            assert(self.repository.jobs() =~= s.update(
                i,
                Job { state: JobState::Completed { finished_at: finished }, updated_at: finished, ..s[i] },
            ));
        }
        r
    }

    /// One poll at the given times: the most urgent pending job, if any, is
    /// marked running at `started`, run, and marked completed at `finished`.
    /// A failure of the job itself is not an error of the cycle.
    pub fn process_cycle_at(&mut self, started: i64, finished: i64) -> (r: QueueResult<Option<JobResult>>)
        ensures
            cycle_post(old(self).jobs(), started, finished, final(self).jobs()),
            final(self).settings() == old(self).settings(),
            r is Ok,
            by_priority(pending_jobs(old(self).jobs())).len() == 0 <==> r == Ok::<Option<JobResult>, QueueError>(None),
            r matches Ok(Some(res)) ==> res.job_id@ == by_priority(pending_jobs(old(self).jobs()))[0].id@
                && res.outcome is Success,
    {
        let job = match self.poll_once() {
            Ok(Some(j)) => j,
            Ok(None) => return Ok(None),
            Err(e) => return Err(e),
        };
        let ghost s = self.repository.jobs();
        let ghost queue = by_priority(pending_jobs(s));
        proof {
            lemma_queued_job_found(s, queue, job);
        }
        match self.execute_job(job, started, finished) {
            Ok(res) => Ok(Some(res)),
            Err(_) => Ok(None),
        }
    }

    /// One poll, stamped with the current time: read when the job is marked
    /// running, and again once its body has run.
    pub fn process_cycle(&mut self) -> (r: QueueResult<Option<JobResult>>)
        ensures
            exists|started: i64, finished: i64|
                cycle_post(old(self).jobs(), started, finished, final(self).jobs()),
            final(self).settings() == old(self).settings(),
            r is Ok,
            by_priority(pending_jobs(old(self).jobs())).len() == 0 <==> r == Ok::<Option<JobResult>, QueueError>(None),
            r matches Ok(Some(res)) ==> res.job_id@ == by_priority(pending_jobs(old(self).jobs()))[0].id@
                && res.outcome is Success,
    {
        let job = match self.poll_once() {
            Ok(Some(j)) => j,
            Ok(None) => {
                assert(cycle_post(old(self).jobs(), 0, 0, self.jobs()));
                return Ok(None);
            },
            Err(e) => return Err(e),
        };
        let ghost s = self.repository.jobs();
        let ghost queue = by_priority(pending_jobs(s));
        proof {
            lemma_queued_job_found(s, queue, job);
        }
        let ghost i = first_job_index(s, job.id@)->0;
        let started = now_millis();
        let job = match self.start_job(job, started) {
            Ok(j) => j,
            Err(_) => return Ok(None),
        };
        let outcome = match self.execute_job_body(&job) {
            Ok(o) => o,
            Err(_) => return Ok(None),
        };
        let finished = now_millis();
        let r = self.finish_job(job, outcome, started, finished);
        proof {
            assert(self.repository.jobs() =~= s.update(
                i,
                Job { state: JobState::Completed { finished_at: finished }, updated_at: finished, ..s[i] },
            ));
            assert(cycle_post(s, started, finished, self.jobs()));
        }
        match r {
            Ok(res) => Ok(Some(res)),
            Err(_) => Ok(None),
        }
    }
}

/// The job at the front of the queue is a pending job of the repository, so
/// the repository has a job with its id.
proof fn lemma_queued_job_found(s: Seq<Job>, queue: Seq<Job>, job: Job)
    requires
        queue == by_priority(pending_jobs(s)),
        queue.len() > 0,
        job == queue[0],
    ensures
        first_job_index(s, job.id@) is Some,
        first_job_index(s, job.id@) matches Some(i) && 0 <= i < s.len() && s[i].id@ == job.id@
            && forall|j: int| 0 <= j < i ==> s[j].id@ != job.id@,
{
    assert(queue[0] == job);
    lemma_by_priority_members(pending_jobs(s), job);
    lemma_pending_members(s, job);
    let k = choose|k: int| 0 <= k < s.len() && s[k] == job;
    assert(s[k].id@ == job.id@);
    lemma_first_job_index_found(s, job.id@, k);
}

} // verus!
