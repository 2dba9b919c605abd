//! Errors of policy configuration and of policy enforcement.
use vstd::prelude::*;

use crate::text::{decimal, push_decimal};

verus! {

/// Configuration errors when creating policies.
#[derive(Debug, Clone, Copy, PartialEq, Eq, Structural)]
pub enum ConfigError {
    InvalidTimeout { duration_ms: u64 },
    InvalidBaseDelay { delay_ms: u64 },
    InvalidMaxDelay { max_delay_ms: u64, base_delay_ms: u64 },
    InvalidFailureThreshold { threshold: u32 },
    InvalidRecoveryTimeout { timeout_ms: u64 },
}

/// The message of a configuration error.
pub open spec fn config_message(e: ConfigError) -> Seq<char> {
    match e {
        ConfigError::InvalidTimeout { duration_ms } => "Timeout duration must be positive, got "@
            + decimal(duration_ms as nat),
        ConfigError::InvalidBaseDelay { delay_ms } => "Base delay must be positive, got "@ + decimal(
            delay_ms as nat,
        ),
        ConfigError::InvalidMaxDelay { max_delay_ms, base_delay_ms } => "Max delay ("@ + decimal(
            max_delay_ms as nat,
        ) + ") must be >= base delay ("@ + decimal(base_delay_ms as nat) + ")"@,
        ConfigError::InvalidFailureThreshold { threshold } => "Failure threshold must be positive, got "@
            + decimal(threshold as nat),
        ConfigError::InvalidRecoveryTimeout { timeout_ms } => "Recovery timeout must be positive, got "@
            + decimal(timeout_ms as nat),
    }
}

impl ConfigError {
    /// The message a user sees for this error.
    pub fn to_string(&self) -> (s: String)
        ensures
            s@ == config_message(*self),
    {
        match *self {
            ConfigError::InvalidTimeout { duration_ms } => {
                let mut s = String::from_str("Timeout duration must be positive, got ");
                push_decimal(&mut s, duration_ms);
                s
            },
            ConfigError::InvalidBaseDelay { delay_ms } => {
                let mut s = String::from_str("Base delay must be positive, got ");
                push_decimal(&mut s, delay_ms);
                s
            },
            ConfigError::InvalidMaxDelay { max_delay_ms, base_delay_ms } => {
                let mut s = String::from_str("Max delay (");
                push_decimal(&mut s, max_delay_ms);
                s.append(") must be >= base delay (");
                push_decimal(&mut s, base_delay_ms);
                s.append(")");
                s
            },
            ConfigError::InvalidFailureThreshold { threshold } => {
                let mut s = String::from_str("Failure threshold must be positive, got ");
                push_decimal(&mut s, threshold as u64);
                s
            },
            ConfigError::InvalidRecoveryTimeout { timeout_ms } => {
                let mut s = String::from_str("Recovery timeout must be positive, got ");
                push_decimal(&mut s, timeout_ms);
                s
            },
        }
    }
}

/// Errors while running a phase under policies. Times are milliseconds
/// since the Unix epoch.
#[derive(Debug)]
pub enum OrchestratorError {
    /// The phase ran longer than its timeout.
    PhaseTimeout { phase: String, timeout_ms: u64, elapsed_ms: u64 },
    /// All retry attempts failed.
    RetriesExhausted { phase: String, attempts: u32, last_error: Box<OrchestratorError> },
    /// The circuit breaker is open and refused the request.
    CircuitBreakerOpen { phase: String, failure_count: u32, recovery_timeout_ms: u64 },
    /// The global pipeline deadline passed.
    DeadlineExceeded { deadline: i64, elapsed_ms: u64 },
    /// The phase failed.
    PhaseExecution { phase: String, message: String },
}

/// The message of an orchestrator error.
pub open spec fn orchestrator_message(e: OrchestratorError) -> Seq<char> {
    match e {
        OrchestratorError::PhaseTimeout { phase, timeout_ms, elapsed_ms } => "Phase '"@ + phase@
            + "' timed out after "@ + decimal(elapsed_ms as nat) + "ms (limit: "@ + decimal(
            timeout_ms as nat,
        ) + "ms)"@,
        OrchestratorError::RetriesExhausted { phase, attempts, .. } => "Phase '"@ + phase@
            + "' failed after "@ + decimal(attempts as nat) + " attempts (retries exhausted)"@,
        OrchestratorError::CircuitBreakerOpen { phase, failure_count, .. } =>
            "Circuit breaker open for phase '"@ + phase@ + "' after "@ + decimal(failure_count as nat)
            + " failures"@,
        OrchestratorError::DeadlineExceeded { elapsed_ms, .. } => "Pipeline deadline exceeded after "@
            + decimal(elapsed_ms as nat) + "ms"@,
        OrchestratorError::PhaseExecution { phase, message } => "Phase '"@ + phase@
            + "' execution failed: "@ + message@,
    }
}

impl OrchestratorError {
    /// The message a user sees for this error.
    pub fn to_string(&self) -> (s: String)
        ensures
            s@ == orchestrator_message(*self),
    {
        match self {
            OrchestratorError::PhaseTimeout { phase, timeout_ms, elapsed_ms } => {
                let mut s = String::from_str("Phase '");
                s.append(phase.as_str());
                s.append("' timed out after ");
                push_decimal(&mut s, *elapsed_ms);
                s.append("ms (limit: ");
                push_decimal(&mut s, *timeout_ms);
                s.append("ms)");
                s
            },
            OrchestratorError::RetriesExhausted { phase, attempts, .. } => {
                let mut s = String::from_str("Phase '");
                s.append(phase.as_str());
                s.append("' failed after ");
                push_decimal(&mut s, *attempts as u64);
                s.append(" attempts (retries exhausted)");
                s
            },
            OrchestratorError::CircuitBreakerOpen { phase, failure_count, .. } => {
                let mut s = String::from_str("Circuit breaker open for phase '");
                s.append(phase.as_str());
                s.append("' after ");
                push_decimal(&mut s, *failure_count as u64);
                s.append(" failures");
                s
            },
            OrchestratorError::DeadlineExceeded { elapsed_ms, .. } => {
                let mut s = String::from_str("Pipeline deadline exceeded after ");
                push_decimal(&mut s, *elapsed_ms);
                s.append("ms");
                s
            },
            OrchestratorError::PhaseExecution { phase, message } => {
                let mut s = String::from_str("Phase '");
                s.append(phase.as_str());
                s.append("' execution failed: ");
                s.append(message.as_str());
                s
            },
        }
    }
}

} // verus!
