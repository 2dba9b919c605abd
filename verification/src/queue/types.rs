//! Domain types of the job queue. Times are milliseconds since the Unix epoch.
use vstd::prelude::*;

use crate::clock::now_millis;
use crate::json::copy_value;
use crate::text::{decimal, push_decimal, push_signed_decimal, signed_decimal};

verus! {

/// Job priorities, `P0` most urgent.
#[derive(Debug, Clone, Copy, PartialEq, Eq, Structural, PartialOrd, Ord, Hash)]
pub enum JobPriority {
    P0,
    P1,
    P2,
    P3,
    P4,
}

/// The numeric level of a priority.
pub open spec fn priority_value(p: JobPriority) -> u8 {
    match p {
        JobPriority::P0 => 0,
        JobPriority::P1 => 1,
        JobPriority::P2 => 2,
        JobPriority::P3 => 3,
        JobPriority::P4 => 4,
    }
}

/// The priority of a level; levels above 3 are all `P4`.
pub open spec fn priority_of(v: u8) -> JobPriority {
    if v == 0 {
        JobPriority::P0
    } else if v == 1 {
        JobPriority::P1
    } else if v == 2 {
        JobPriority::P2
    } else if v == 3 {
        JobPriority::P3
    } else {
        JobPriority::P4
    }
}

impl JobPriority {
    pub fn value(&self) -> (r: u8)
        ensures
            r == priority_value(*self),
    {
        match self {
            JobPriority::P0 => 0,
            JobPriority::P1 => 1,
            JobPriority::P2 => 2,
            JobPriority::P3 => 3,
            JobPriority::P4 => 4,
        }
    }

    pub fn from_u8(value: u8) -> (r: Self)
        ensures
            r == priority_of(value),
    {
        match value {
            0 => JobPriority::P0,
            1 => JobPriority::P1,
            2 => JobPriority::P2,
            3 => JobPriority::P3,
            _ => JobPriority::P4,
        }
    }

    /// The priority as `Display` prints it: `P` and its level.
    pub fn to_string(&self) -> (s: String)
        ensures
            s@ == "P"@ + decimal(priority_value(*self) as nat),
    {
        let mut s = String::from_str("P");
        push_decimal(&mut s, self.value() as u64);
        s
    }
}

/// Lifecycle states of a job.
#[derive(Debug)]
pub enum JobState {
    Pending,
    Running { started_at: i64 },
    Completed { finished_at: i64 },
    Failed { error: String, failed_at: i64 },
}

impl Clone for JobState {
    fn clone(&self) -> (r: Self)
        ensures
            r == *self,
    {
        match self {
            JobState::Pending => JobState::Pending,
            JobState::Running { started_at } => JobState::Running { started_at: *started_at },
            JobState::Completed { finished_at } => JobState::Completed { finished_at: *finished_at },
            JobState::Failed { error, failed_at } => JobState::Failed {
                error: error.clone(),
                failed_at: *failed_at,
            },
        }
    }
}

pub open spec fn job_state_terminal(s: JobState) -> bool {
    s is Completed || s is Failed
}

impl JobState {
    pub fn is_pending(&self) -> (r: bool)
        ensures
            r == (*self is Pending),
    {
        match self {
            JobState::Pending => true,
            _ => false,
        }
    }

    pub fn is_running(&self) -> (r: bool)
        ensures
            r == (*self is Running),
    {
        match self {
            JobState::Running { .. } => true,
            _ => false,
        }
    }

    pub fn is_terminal(&self) -> (r: bool)
        ensures
            r == job_state_terminal(*self),
    {
        match self {
            JobState::Completed { .. } | JobState::Failed { .. } => true,
            _ => false,
        }
    }
}

/// What a job does.
#[derive(Debug)]
pub enum JobPayload {
    Pipeline { spec_path: String },
    Task { command: String },
    Custom { data: serde_json::Value },
}

impl Clone for JobPayload {
    fn clone(&self) -> (r: Self)
        ensures
            r == *self,
    {
        match self {
            JobPayload::Pipeline { spec_path } => JobPayload::Pipeline { spec_path: spec_path.clone() },
            JobPayload::Task { command } => JobPayload::Task { command: command.clone() },
            JobPayload::Custom { data } => JobPayload::Custom { data: copy_value(data) },
        }
    }
}

/// A job in the queue.
#[derive(Debug)]
pub struct Job {
    pub id: String,
    pub priority: JobPriority,
    pub payload: JobPayload,
    pub state: JobState,
    pub created_at: i64,
    pub updated_at: i64,
}

impl Clone for Job {
    fn clone(&self) -> (r: Self)
        ensures
            r == *self,
    {
        Job {
            id: self.id.clone(),
            priority: self.priority,
            payload: self.payload.clone(),
            state: self.state.clone(),
            created_at: self.created_at,
            updated_at: self.updated_at,
        }
    }
}

/// Whether a job may move from `from` to `to`: pending jobs start, running
/// jobs complete or fail.
pub open spec fn job_transition_allowed(from: JobState, to: JobState) -> bool {
    ||| from is Pending && to is Running
    ||| from is Running && to is Completed
    ||| from is Running && to is Failed
}

impl Job {
    /// A pending job created at `now`.
    pub fn new_at(id: String, priority: JobPriority, payload: JobPayload, now: i64) -> (j: Self)
        ensures
            j == (Job { id, priority, payload, state: JobState::Pending, created_at: now, updated_at: now }),
    {
        Job { id, priority, payload, state: JobState::Pending, created_at: now, updated_at: now }
    }

    /// A pending job created now.
    pub fn new(id: String, priority: JobPriority, payload: JobPayload) -> (j: Self)
        ensures
            j.id == id,
            j.priority == priority,
            j.payload == payload,
            j.state is Pending,
            j.created_at == j.updated_at,
    {
        Job::new_at(id, priority, payload, now_millis())
    }

    /// Move to `new_state` at time `now` when allowed: a pending job starts,
    /// a running job completes or fails. Terminal jobs refuse every
    /// transition; other refusals name both states.
    pub fn transition_to_at(&mut self, new_state: JobState, now: i64) -> (r: Result<(), JobTransitionError>)
        ensures
            job_transition_allowed(old(self).state, new_state) ==> r is Ok && *final(self) == (Job {
                state: new_state,
                updated_at: now,
                ..*old(self)
            }),
            !job_transition_allowed(old(self).state, new_state) && job_state_terminal(old(self).state)
                ==> r == Err::<(), JobTransitionError>(
                JobTransitionError::AlreadyTerminal { current: old(self).state },
            ) && *final(self) == *old(self),
            !job_transition_allowed(old(self).state, new_state) && !job_state_terminal(old(self).state)
                ==> r == Err::<(), JobTransitionError>(
                JobTransitionError::InvalidTransition { from: old(self).state, to: new_state },
            ) && *final(self) == *old(self),
    {
        let allowed = match (&self.state, &new_state) {
            (JobState::Pending, JobState::Running { .. }) => true,
            (JobState::Running { .. }, JobState::Completed { .. }) => true,
            (JobState::Running { .. }, JobState::Failed { .. }) => true,
            _ => false,
        };
        if !allowed {
            if self.state.is_terminal() {
                return Err(JobTransitionError::AlreadyTerminal { current: self.state.clone() });
            }
            return Err(JobTransitionError::InvalidTransition { from: self.state.clone(), to: new_state });
        }
        self.state = new_state;
        self.updated_at = now;
        Ok(())
    }

    /// Move to `new_state` now when allowed (see `transition_to_at`).
    pub fn transition_to(&mut self, new_state: JobState) -> (r: Result<(), JobTransitionError>)
        ensures
            job_transition_allowed(old(self).state, new_state) ==> r is Ok && *final(self) == (Job {
                state: new_state,
                updated_at: final(self).updated_at,
                ..*old(self)
            }),
            !job_transition_allowed(old(self).state, new_state) && job_state_terminal(old(self).state)
                ==> r == Err::<(), JobTransitionError>(
                JobTransitionError::AlreadyTerminal { current: old(self).state },
            ) && *final(self) == *old(self),
            !job_transition_allowed(old(self).state, new_state) && !job_state_terminal(old(self).state)
                ==> r == Err::<(), JobTransitionError>(
                JobTransitionError::InvalidTransition { from: old(self).state, to: new_state },
            ) && *final(self) == *old(self),
    {
        self.transition_to_at(new_state, now_millis())
    }
}

/// Error when moving a job between states.
#[derive(Debug, Clone)]
pub enum JobTransitionError {
    InvalidTransition { from: JobState, to: JobState },
    AlreadyTerminal { current: JobState },
}

/// How a job state is written in messages: the state's name and its fields
/// as `name: value` between braces; times are written in decimal and the
/// error text of a failed job stands between double quotes.
pub open spec fn job_state_text(s: JobState) -> Seq<char> {
    match s {
        JobState::Pending => "Pending"@,
        JobState::Running { started_at } => "Running { started_at: "@ + signed_decimal(started_at as int) + " }"@,
        JobState::Completed { finished_at } => "Completed { finished_at: "@ + signed_decimal(finished_at as int)
            + " }"@,
        JobState::Failed { error, failed_at } => "Failed { error: \""@ + error@ + "\", failed_at: "@
            + signed_decimal(failed_at as int) + " }"@,
    }
}

/// The message of a job transition error.
pub open spec fn job_transition_message(e: JobTransitionError) -> Seq<char> {
    match e {
        JobTransitionError::InvalidTransition { from, to } => "Invalid job transition from "@ + job_state_text(from)
            + " to "@ + job_state_text(to),
        JobTransitionError::AlreadyTerminal { current } => "Job already in terminal state: "@ + job_state_text(
            current,
        ),
    }
}

/// Append the text of job state `st` to `s`.
fn push_job_state(s: &mut String, st: &JobState)
    ensures
        final(s)@ == old(s)@ + job_state_text(*st),
{
    match st {
        JobState::Pending => {
            s.append("Pending");
        },
        JobState::Running { started_at } => {
            s.append("Running { started_at: ");
            push_signed_decimal(s, *started_at);
            s.append(" }");
            proof {
                assert(old(s)@ + "Running { started_at: "@ + signed_decimal(*started_at as int) + " }"@
                    =~= old(s)@ + job_state_text(*st));
            }
        },
        JobState::Completed { finished_at } => {
            s.append("Completed { finished_at: ");
            push_signed_decimal(s, *finished_at);
            s.append(" }");
            proof {
                assert(old(s)@ + "Completed { finished_at: "@ + signed_decimal(*finished_at as int) + " }"@
                    =~= old(s)@ + job_state_text(*st));
            }
        },
        JobState::Failed { error, failed_at } => {
            s.append("Failed { error: \"");
            s.append(error.as_str());
            s.append("\", failed_at: ");
            push_signed_decimal(s, *failed_at);
            s.append(" }");
            proof {
                assert(old(s)@ + "Failed { error: \""@ + error@ + "\", failed_at: "@ + signed_decimal(
                    *failed_at as int,
                ) + " }"@ =~= old(s)@ + job_state_text(*st));
            }
        },
    }
}

impl JobTransitionError {
    /// The message a user sees for this error.
    pub fn to_string(&self) -> (s: String)
        ensures
            s@ == job_transition_message(*self),
    {
        match self {
            JobTransitionError::InvalidTransition { from, to } => {
                let mut s = String::from_str("Invalid job transition from ");
                push_job_state(&mut s, from);
                s.append(" to ");
                push_job_state(&mut s, to);
                proof {
                    assert(s@ =~= job_transition_message(*self));
                }
                s
            },
            JobTransitionError::AlreadyTerminal { current } => {
                let mut s = String::from_str("Job already in terminal state: ");
                push_job_state(&mut s, current);
                s
            },
        }
    }
}

/// The result of running a job.
#[derive(Debug, Clone)]
pub struct JobResult {
    pub job_id: String,
    pub outcome: JobOutcome,
    pub execution_time_ms: u64,
}

/// Whether a job succeeded.
#[derive(Debug, Clone)]
pub enum JobOutcome {
    Success,
    Failure { error: String },
}

} // verus!
