//! Execution policies: timeouts, retries with backoff, circuit breakers and
//! deadlines.
use vstd::prelude::*;

pub mod circuit_breaker;
pub mod deadline;
pub mod errors;
pub mod retry;
pub mod retry_policy;
pub mod timeout;
pub mod timeout_error;
pub mod timeout_policy;

use circuit_breaker::{CircuitBreaker, CircuitBreakerState};
use deadline::Deadline;
use errors::ConfigError;
use retry::RetryPolicy;
use timeout::PhaseTimeout;

verus! {

/// The policies that govern a pipeline run.
#[derive(Debug, Clone, Copy)]
pub struct PolicyConfig {
    /// Timeout for each phase.
    pub timeout: PhaseTimeout,
    /// Retry policy.
    pub retry: RetryPolicy,
    /// Circuit breaker.
    pub circuit_breaker: CircuitBreaker,
    /// Optional global deadline.
    pub deadline: Option<Deadline>,
}

/// Options for creating a policy configuration.
pub struct PolicyOpts {
    pub timeout_ms: u64,
    pub max_retries: u32,
    pub base_delay_ms: u64,
    pub max_delay_ms: u64,
    pub failure_threshold: u32,
    pub recovery_timeout_ms: u64,
}

impl PolicyConfig {
    /// A configuration from options, checked in order: the timeout must be
    /// positive; the base delay positive and at most the maximum delay (any
    /// violation is reported as an invalid base delay); the failure
    /// threshold and the recovery timeout positive.
    pub fn new(opts: PolicyOpts) -> (r: Result<Self, ConfigError>)
        ensures
            opts.timeout_ms == 0 ==> r == Err::<Self, ConfigError>(
                ConfigError::InvalidTimeout { duration_ms: 0 },
            ),
            opts.timeout_ms > 0 && !(0 < opts.base_delay_ms <= opts.max_delay_ms) ==> r == Err::<
                Self,
                ConfigError,
            >(ConfigError::InvalidBaseDelay { delay_ms: opts.base_delay_ms }),
            opts.timeout_ms > 0 && 0 < opts.base_delay_ms <= opts.max_delay_ms
                && opts.failure_threshold == 0 ==> r == Err::<Self, ConfigError>(
                ConfigError::InvalidFailureThreshold { threshold: 0 },
            ),
            opts.timeout_ms > 0 && 0 < opts.base_delay_ms <= opts.max_delay_ms
                && opts.failure_threshold > 0 && opts.recovery_timeout_ms == 0 ==> r == Err::<
                Self,
                ConfigError,
            >(ConfigError::InvalidRecoveryTimeout { timeout_ms: 0 }),
            opts.timeout_ms > 0 && 0 < opts.base_delay_ms <= opts.max_delay_ms
                && opts.failure_threshold > 0 && opts.recovery_timeout_ms > 0 ==> (r matches Ok(c) && {
                &&& c.timeout.duration() == opts.timeout_ms
                &&& c.retry.retries() == opts.max_retries
                &&& c.retry.base_delay() == opts.base_delay_ms
                &&& c.retry.max_delay() == opts.max_delay_ms
                &&& c.circuit_breaker.cb_state() == CircuitBreakerState::Closed
                &&& c.circuit_breaker.failures() == 0
                &&& c.circuit_breaker.successes() == 0
                &&& c.circuit_breaker.failure_limit() == opts.failure_threshold
                &&& c.circuit_breaker.success_limit() == 1
                &&& c.circuit_breaker.open_ms() == opts.recovery_timeout_ms
                &&& c.circuit_breaker.last_failure() is None
                &&& c.deadline is None
            }),
    {
        let timeout = match PhaseTimeout::new(opts.timeout_ms) {
            Ok(t) => t,
            Err(e) => return Err(e),
        };
        let retry = match RetryPolicy::new(opts.max_retries, opts.base_delay_ms, opts.max_delay_ms) {
            Ok(r) => r,
            Err(_) => return Err(ConfigError::InvalidBaseDelay { delay_ms: opts.base_delay_ms }),
        };
        let circuit_breaker = match CircuitBreaker::with_recovery_timeout(
            opts.failure_threshold,
            opts.recovery_timeout_ms,
        ) {
            Ok(b) => b,
            Err(e) => return Err(e),
        };
        Ok(PolicyConfig { timeout, retry, circuit_breaker, deadline: None })
    }

    /// The same configuration with a global deadline.
    pub fn with_deadline(self, deadline: Deadline) -> (c: Self)
        ensures
            c == (PolicyConfig { deadline: Some(deadline), ..self }),
    {
        PolicyConfig { deadline: Some(deadline), ..self }
    }
}

} // verus!
