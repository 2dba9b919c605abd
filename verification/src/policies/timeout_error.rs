//! Errors of timeout enforcement and of the policy layer as a whole.
use vstd::prelude::*;

use crate::text::{decimal, push_decimal};

verus! {

/// Errors of timeout enforcement.
#[derive(Debug, Clone)]
pub enum TimeoutError {
    InvalidTimeout(String),
    TimeoutExceeded { phase_id: String, duration_ms: u64, timeout_ms: u64 },
}

/// The message of a timeout error.
pub open spec fn timeout_error_message(e: TimeoutError) -> Seq<char> {
    match e {
        TimeoutError::InvalidTimeout(m) => "Invalid timeout: "@ + m@,
        TimeoutError::TimeoutExceeded { phase_id, duration_ms, timeout_ms } => "Phase '"@ + phase_id@
            + "' exceeded timeout of "@ + decimal(timeout_ms as nat) + "ms (took "@ + decimal(
            duration_ms as nat,
        ) + "ms)"@,
    }
}

fn exceeded_message(phase_id: &String, duration_ms: u64, timeout_ms: u64) -> (s: String)
    ensures
        s@ == "Phase '"@ + phase_id@ + "' exceeded timeout of "@ + decimal(timeout_ms as nat)
            + "ms (took "@ + decimal(duration_ms as nat) + "ms)"@,
{
    let mut s = String::from_str("Phase '");
    s.append(phase_id.as_str());
    s.append("' exceeded timeout of ");
    push_decimal(&mut s, timeout_ms);
    s.append("ms (took ");
    push_decimal(&mut s, duration_ms);
    s.append("ms)");
    s
}

impl TimeoutError {
    /// The message a user sees for this error.
    pub fn to_string(&self) -> (s: String)
        ensures
            s@ == timeout_error_message(*self),
    {
        match self {
            TimeoutError::InvalidTimeout(m) => {
                let mut s = String::from_str("Invalid timeout: ");
                s.append(m.as_str());
                s
            },
            TimeoutError::TimeoutExceeded { phase_id, duration_ms, timeout_ms } => exceeded_message(
                phase_id,
                *duration_ms,
                *timeout_ms,
            ),
        }
    }
}

/// Errors of the policy layer. Times are milliseconds since the Unix epoch.
#[derive(Debug)]
pub enum PolicyError {
    InvalidTimeout(String),
    InvalidRetryPolicy(String),
    TimeoutExceeded { phase_id: String, duration_ms: u64, timeout_ms: u64 },
    MaxRetriesExceeded { phase_id: String, attempts: u32, last_error: Box<PolicyError> },
    CircuitBreakerOpen { phase_id: String, open_until: i64 },
    NonRetryableError { phase_id: String, cause: String },
    PreconditionViolation(String),
}

/// The message of a policy error.
pub open spec fn policy_error_message(e: PolicyError) -> Seq<char> {
    match e {
        PolicyError::InvalidTimeout(m) => "Invalid timeout: "@ + m@,
        PolicyError::InvalidRetryPolicy(m) => "Invalid retry policy: "@ + m@,
        PolicyError::TimeoutExceeded { phase_id, duration_ms, timeout_ms } => "Phase '"@ + phase_id@
            + "' exceeded timeout of "@ + decimal(timeout_ms as nat) + "ms (took "@ + decimal(
            duration_ms as nat,
        ) + "ms)"@,
        PolicyError::MaxRetriesExceeded { phase_id, attempts, .. } => "Phase '"@ + phase_id@
            + "' failed after "@ + decimal(attempts as nat) + " attempts (retries exhausted)"@,
        PolicyError::CircuitBreakerOpen { phase_id, .. } => "Circuit breaker open for phase '"@
            + phase_id@ + "'"@,
        PolicyError::NonRetryableError { phase_id, cause } => "Non-retryable error in phase '"@
            + phase_id@ + "': "@ + cause@,
        PolicyError::PreconditionViolation(m) => "Precondition violation: "@ + m@,
    }
}

impl PolicyError {
    /// The message a user sees for this error.
    pub fn to_string(&self) -> (s: String)
        ensures
            s@ == policy_error_message(*self),
    {
        match self {
            PolicyError::InvalidTimeout(m) => {
                let mut s = String::from_str("Invalid timeout: ");
                s.append(m.as_str());
                s
            },
            PolicyError::InvalidRetryPolicy(m) => {
                let mut s = String::from_str("Invalid retry policy: ");
                s.append(m.as_str());
                s
            },
            PolicyError::TimeoutExceeded { phase_id, duration_ms, timeout_ms } => exceeded_message(
                phase_id,
                *duration_ms,
                *timeout_ms,
            ),
            PolicyError::MaxRetriesExceeded { phase_id, attempts, .. } => {
                let mut s = String::from_str("Phase '");
                s.append(phase_id.as_str());
                s.append("' failed after ");
                push_decimal(&mut s, *attempts as u64);
                s.append(" attempts (retries exhausted)");
                s
            },
            PolicyError::CircuitBreakerOpen { phase_id, .. } => {
                let mut s = String::from_str("Circuit breaker open for phase '");
                s.append(phase_id.as_str());
                s.append("'");
                s
            },
            PolicyError::NonRetryableError { phase_id, cause } => {
                let mut s = String::from_str("Non-retryable error in phase '");
                s.append(phase_id.as_str());
                s.append("': ");
                s.append(cause.as_str());
                s
            },
            PolicyError::PreconditionViolation(m) => {
                let mut s = String::from_str("Precondition violation: ");
                s.append(m.as_str());
                s
            },
        }
    }
}

} // verus!
