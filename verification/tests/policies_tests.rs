//! Execution policies: timeouts, deadlines, retries, the circuit breaker,
//! and their errors.

use orchestrator::policies::circuit_breaker::{
    CircuitBreaker, CircuitBreakerError, CircuitBreakerState,
};
use orchestrator::policies::deadline::Deadline;
use orchestrator::policies::errors::{ConfigError, OrchestratorError};
use orchestrator::policies::retry::RetryPolicy;
use orchestrator::policies::retry_policy::{check_base_delay, check_max_delay, is_retryable, RetryPolicyError};
use orchestrator::policies::timeout::PhaseTimeout;
use orchestrator::policies::timeout_error::{PolicyError, TimeoutError};
use orchestrator::policies::timeout_policy::TimeoutPolicy;
use orchestrator::policies::{PolicyConfig, PolicyOpts};

// --- PhaseTimeout ---

#[test]
fn test_phase_timeout_new_valid() {
    let timeout = PhaseTimeout::new(1000).expect("should create timeout");
    assert_eq!(timeout.duration_ms(), 1000);
}

#[test]
fn test_phase_timeout_new_zero() {
    let result = PhaseTimeout::new(0);
    assert!(result.is_err());
    assert_eq!(result.unwrap_err(), ConfigError::InvalidTimeout { duration_ms: 0 });
}

#[test]
fn test_phase_timeout_is_expired_at() {
    let timeout = PhaseTimeout::new(50).expect("should create timeout");
    assert!(timeout.is_expired_at(0, 100));
    assert!(timeout.is_expired_at(0, 50));
    assert!(!timeout.is_expired_at(0, 49));
    assert_eq!(timeout.elapsed_ms_at(10, 110), 100);
    assert_eq!(timeout.elapsed_ms_at(110, 10), 0);
}

#[test]
fn test_phase_timeout_is_expired() {
    let timeout = PhaseTimeout::new(50).expect("should create timeout");
    let started = 0;
    assert!(timeout.is_expired(started));
}

// --- Deadline ---

#[test]
fn test_deadline_at_and_remaining() {
    let d = Deadline::at(1_000);
    assert_eq!(d.deadline_at(), 1_000);
    assert!(!d.is_exceeded_at(999));
    assert!(!d.is_exceeded_at(1_000));
    assert!(d.is_exceeded_at(1_001));
    assert_eq!(d.remaining_ms_at(400), 600);
    assert_eq!(d.remaining_ms_at(1_500), 0);
}

#[test]
fn test_deadline_from_now_at() {
    let d = Deadline::from_now_at(250, 1_000);
    assert_eq!(d.deadline_at(), 1_250);
    let far = Deadline::from_now_at(u64::MAX, i64::MAX - 5);
    assert_eq!(far.deadline_at(), i64::MAX);
}

#[test]
fn test_deadline_from_now_not_yet_exceeded() {
    let d = Deadline::from_now(3_600_000);
    assert!(!d.is_exceeded());
    assert!(d.remaining_ms() > 0);
}

// --- RetryPolicy (integer backoff) ---

#[test]
fn test_retry_policy_new_valid() {
    let policy = RetryPolicy::new(3, 100, 1000).expect("should create policy");
    assert_eq!(policy.max_retries(), 3);
}

#[test]
fn test_retry_policy_new_zero_base_delay() {
    let result = RetryPolicy::new(3, 0, 1000);
    assert!(result.is_err());
}

#[test]
fn test_retry_policy_new_max_less_than_base() {
    let result = RetryPolicy::new(3, 1000, 100);
    assert!(result.is_err());
}

#[test]
fn test_retry_policy_calculate_delay() {
    let policy = RetryPolicy::new(3, 100, 1000).expect("should create policy");
    assert_eq!(policy.calculate_delay(0), 100);
    assert_eq!(policy.calculate_delay(1), 200);
    assert_eq!(policy.calculate_delay(2), 400);
    assert_eq!(policy.calculate_delay(3), 800);
}

#[test]
fn test_retry_policy_calculate_delay_capped() {
    let policy = RetryPolicy::new(10, 100, 500).expect("should create policy");
    assert_eq!(policy.calculate_delay(10), 500);
}

#[test]
fn test_retry_policy_total_attempts() {
    let policy = RetryPolicy::new(3, 100, 1000).expect("should create policy");
    assert_eq!(policy.total_attempts(), 4);
}

#[test]
fn test_retry_policy_zero_retries() {
    let policy = RetryPolicy::new(0, 100, 1000).expect("should create policy");
    assert_eq!(policy.total_attempts(), 1);
    assert_eq!(policy.max_retries(), 0);
}

#[test]
fn test_retry_policy_equal_base_and_max_delay() {
    let policy = RetryPolicy::new(3, 100, 100).expect("should create policy");
    assert_eq!(policy.calculate_delay(0), 100);
    assert_eq!(policy.calculate_delay(10), 100);
}

#[test]
fn test_retry_policy_calculate_delay_with_large_attempt() {
    let policy = RetryPolicy::new(100, 100, 10000).expect("should create");
    let delay = policy.calculate_delay(100);
    assert!(delay <= 10000);
}

#[test]
fn test_retry_policy_display() {
    let err = ConfigError::InvalidBaseDelay { delay_ms: 0 };
    let msg = err.to_string();
    assert!(msg.contains("Base delay"));
    assert_eq!(msg, "Base delay must be positive, got 0");
}

#[test]
fn test_retry_policy_calculate_delay_saturation() {
    let policy = RetryPolicy::new(5, u64::MAX, u64::MAX).expect("should create");
    let delay = policy.calculate_delay(1);
    assert_eq!(delay, u64::MAX);
}

#[test]
fn test_max_retries_large_value() {
    let policy = RetryPolicy::new(10_000, 100, 1000).expect("ok");
    assert_eq!(policy.max_retries(), 10_000);
    assert_eq!(policy.total_attempts(), 10_001);
}

#[test]
fn test_max_retries_max_u32() {
    let policy = RetryPolicy::new(u32::MAX, 100, 1000).expect("ok");
    assert_eq!(policy.max_retries(), u32::MAX);
}

#[test]
fn test_backoff_formula_exact_values() {
    let policy = RetryPolicy::new(10, 100, 10_000).expect("ok");
    assert_eq!(policy.calculate_delay(0), 100);
    assert_eq!(policy.calculate_delay(1), 200);
    assert_eq!(policy.calculate_delay(2), 400);
    assert_eq!(policy.calculate_delay(3), 800);
    assert_eq!(policy.calculate_delay(4), 1600);
    assert_eq!(policy.calculate_delay(5), 3200);
    assert_eq!(policy.calculate_delay(6), 6400);
}

#[test]
fn test_backoff_cap_activates_at_exact_boundary() {
    let policy = RetryPolicy::new(10, 100, 800).expect("ok");
    assert_eq!(policy.calculate_delay(2), 400);
    assert_eq!(policy.calculate_delay(3), 800);
    assert_eq!(policy.calculate_delay(4), 800);
    assert_eq!(policy.calculate_delay(100), 800);
}

#[test]
fn test_backoff_monotonically_non_decreasing_with_cap() {
    let policy = RetryPolicy::new(50, 50, 300).expect("ok");
    let mut prev = 0u64;
    for attempt in 0..30 {
        let delay = policy.calculate_delay(attempt);
        assert!(delay >= prev);
        assert!(delay <= 300);
        prev = delay;
    }
}

#[test]
fn test_backoff_base_one_grows_as_powers_of_two() {
    let policy = RetryPolicy::new(30, 1, 1_000_000).expect("ok");
    assert_eq!(policy.calculate_delay(0), 1);
    assert_eq!(policy.calculate_delay(1), 2);
    assert_eq!(policy.calculate_delay(10), 1024);
    assert_eq!(policy.calculate_delay(19), 524_288);
}

#[test]
fn test_backoff_saturating_pow_on_large_attempt() {
    let policy = RetryPolicy::new(5, 100, u64::MAX).expect("ok");
    assert_eq!(policy.calculate_delay(100), u64::MAX);
}

#[test]
fn test_backoff_delay_sequence_complete() {
    let policy = RetryPolicy::new(10, 50, 500).expect("ok");
    let delays: Vec<u64> = (0..10).map(|a| policy.calculate_delay(a)).collect();
    assert_eq!(delays[0], 50);
    assert_eq!(delays[1], 100);
    assert_eq!(delays[2], 200);
    assert_eq!(delays[3], 400);
    assert_eq!(delays[4], 500);
    assert!(delays[5..].iter().all(|&d| d == 500));
}

#[test]
fn test_validation_rejects_max_less_than_base() {
    let err = RetryPolicy::new(3, 200, 100).unwrap_err();
    assert_eq!(
        err,
        ConfigError::InvalidMaxDelay {
            max_delay_ms: 100,
            base_delay_ms: 200
        }
    );
    assert_eq!(err.to_string(), "Max delay (100) must be >= base delay (200)");
}

// --- Configurable retry policy parts ---

#[test]
fn test_retry_policy_checks() {
    assert_eq!(check_base_delay(0), Err(RetryPolicyError::InvalidBaseDelay));
    assert_eq!(check_base_delay(1), Ok(()));
    assert_eq!(check_max_delay(100, None), Ok(None));
    assert_eq!(check_max_delay(100, Some(0)), Err(RetryPolicyError::InvalidMaxDelay));
    assert_eq!(check_max_delay(100, Some(99)), Err(RetryPolicyError::InvalidMaxDelay));
    assert_eq!(check_max_delay(100, Some(100)), Ok(Some(100)));
    assert_eq!(
        RetryPolicyError::InvalidFactor.to_string(),
        "factor must be greater than 1.0"
    );
}

#[test]
fn test_is_retryable_matches_substrings() {
    let patterns = vec!["timeout".to_string(), "connection reset".to_string()];
    assert!(is_retryable(&patterns, "request timeout after 5s"));
    assert!(is_retryable(&patterns, "connection reset by peer"));
    assert!(!is_retryable(&patterns, "permission denied"));
    assert!(!is_retryable(&[], "timeout"));
    assert!(is_retryable(&["".to_string()], "anything"));
    assert!(is_retryable(&["é".to_string()], "café"));
}

// --- TimeoutPolicy ---

#[test]
fn test_timeout_policy() {
    let p = TimeoutPolicy::new(500).expect("valid");
    assert_eq!(p.get_timeout_ms(), Some(500));
    assert!(!p.is_none());
    assert!(TimeoutPolicy::new(0).is_err());
    let none = TimeoutPolicy::none();
    assert!(none.is_none());
    assert_eq!(none.get_timeout_ms(), None);
}

// --- Circuit breaker ---

#[test]
fn test_new_valid() {
    let cb = CircuitBreaker::new(3, 2, 30000).expect("should create");
    assert_eq!(cb.state(), CircuitBreakerState::Closed);
    assert!(cb.is_execution_allowed());
}

#[test]
fn test_with_recovery_timeout_valid() {
    let cb = CircuitBreaker::with_recovery_timeout(3, 5000).expect("should create");
    assert_eq!(cb.state(), CircuitBreakerState::Closed);
    assert_eq!(cb.success_threshold(), 1);
    assert_eq!(cb.open_duration(), 5000);
}

#[test]
fn test_new_rejects_zero_failure_threshold() {
    assert_eq!(
        CircuitBreaker::new(0, 2, 30000).unwrap_err(),
        CircuitBreakerError::InvalidFailureThreshold
    );
}

#[test]
fn test_new_rejects_zero_success_threshold() {
    assert_eq!(
        CircuitBreaker::new(3, 0, 30000).unwrap_err(),
        CircuitBreakerError::InvalidSuccessThreshold
    );
}

#[test]
fn test_new_rejects_zero_open_duration() {
    assert_eq!(
        CircuitBreaker::new(3, 2, 0).unwrap_err(),
        CircuitBreakerError::InvalidOpenDuration
    );
}

#[test]
fn test_with_recovery_timeout_rejects_zero_threshold() {
    let result = CircuitBreaker::with_recovery_timeout(0, 5000);
    assert_eq!(
        result.unwrap_err(),
        ConfigError::InvalidFailureThreshold { threshold: 0 }
    );
}

#[test]
fn test_with_recovery_timeout_rejects_zero_timeout() {
    let result = CircuitBreaker::with_recovery_timeout(3, 0);
    assert_eq!(
        result.unwrap_err(),
        ConfigError::InvalidRecoveryTimeout { timeout_ms: 0 }
    );
}

#[test]
fn test_opens_after_failure_threshold() {
    let mut cb = CircuitBreaker::new(3, 2, 30000).expect("should create");
    cb.record_failure();
    cb.record_failure();
    assert_eq!(cb.state(), CircuitBreakerState::Closed);
    cb.record_failure();
    assert_eq!(cb.state(), CircuitBreakerState::Open);
}

#[test]
fn test_high_threshold_does_not_open_prematurely() {
    let mut cb = CircuitBreaker::new(100, 2, 30000).expect("should create");
    for _ in 0..99 {
        cb.record_failure();
        assert_eq!(cb.state(), CircuitBreakerState::Closed);
        assert!(cb.is_execution_allowed());
    }
    cb.record_failure();
    assert_eq!(cb.state(), CircuitBreakerState::Open);
}

#[test]
fn test_closed_success_resets_failure_count() {
    let mut cb = CircuitBreaker::new(5, 2, 30000).expect("should create");
    cb.record_failure();
    cb.record_failure();
    cb.record_failure();
    assert_eq!(cb.failure_count(), 3);
    cb.record_success();
    assert_eq!(cb.failure_count(), 0);
    assert_eq!(cb.state(), CircuitBreakerState::Closed);
}

#[test]
fn test_open_state_ignores_success_and_failure() {
    let mut cb = CircuitBreaker::new(1, 2, 30000).expect("should create");
    cb.record_failure();
    assert_eq!(cb.state(), CircuitBreakerState::Open);
    assert_eq!(cb.failure_count(), 1);
    cb.record_success();
    cb.record_failure();
    assert_eq!(cb.state(), CircuitBreakerState::Open);
    assert_eq!(cb.failure_count(), 1);
}

#[test]
fn test_check_and_transition_after_duration() {
    let mut cb = CircuitBreaker::new(3, 2, 30000).expect("should create");
    for _ in 0..3 {
        cb.record_failure();
    }
    assert!(!cb.check_and_transition(29999));
    assert!(cb.check_and_transition(30001));
    assert_eq!(cb.state(), CircuitBreakerState::HalfOpen);
    assert_eq!(cb.success_count(), 0);
    assert!(!cb.check_and_transition(50000));
}

#[test]
fn test_halfopen_to_closed_with_high_threshold() {
    let mut cb = CircuitBreaker::new(1, 5, 30000).expect("should create");
    cb.record_failure();
    cb.check_and_transition(30001);
    for _ in 0..4 {
        cb.record_success();
        assert_eq!(cb.state(), CircuitBreakerState::HalfOpen);
    }
    cb.record_success();
    assert_eq!(cb.state(), CircuitBreakerState::Closed);
    assert_eq!(cb.failure_count(), 0);
    assert_eq!(cb.success_count(), 0);
}

#[test]
fn test_halfopen_failure_resets_success_count() {
    let mut cb = CircuitBreaker::new(1, 3, 30000).expect("should create");
    cb.record_failure();
    cb.check_and_transition(30001);
    cb.record_success();
    cb.record_success();
    cb.record_failure();
    assert_eq!(cb.state(), CircuitBreakerState::Open);
    assert_eq!(cb.success_count(), 0);
    assert!(!cb.is_execution_allowed());
}

#[test]
fn test_can_execute_at_uses_last_failure_time() {
    let mut cb = CircuitBreaker::new(1, 1, 1000).expect("should create");
    cb.record_failure_at(5_000);
    assert_eq!(cb.last_failure_at(), Some(5_000));
    assert!(!cb.can_execute_at(5_999));
    assert_eq!(cb.state(), CircuitBreakerState::Open);
    assert!(cb.can_execute_at(6_000));
    assert_eq!(cb.state(), CircuitBreakerState::HalfOpen);
}

#[test]
fn test_try_transition_to_half_open_at() {
    let mut cb = CircuitBreaker::new(1, 1, 1000).expect("should create");
    assert!(!cb.try_transition_to_half_open_at(0));
    cb.record_failure_at(100);
    assert!(!cb.try_transition_to_half_open_at(500));
    assert!(cb.try_transition_to_half_open_at(1_100));
    assert_eq!(cb.state(), CircuitBreakerState::HalfOpen);
}

#[test]
fn test_reset_closes_breaker() {
    let mut cb = CircuitBreaker::new(1, 1, 1000).expect("should create");
    cb.record_failure();
    cb.reset();
    assert_eq!(cb.state(), CircuitBreakerState::Closed);
    assert_eq!(cb.failure_count(), 0);
}

#[test]
fn test_circuit_breaker_error_messages() {
    assert_eq!(
        CircuitBreakerError::InvalidOpenDuration.to_string(),
        "open_duration must be greater than 0"
    );
}

// --- Errors ---

#[test]
fn test_config_error_implements_error() {
    let err = ConfigError::InvalidTimeout { duration_ms: 0 };
    assert_eq!(err.to_string(), "Timeout duration must be positive, got 0");
}

#[test]
fn test_orchestrator_error_messages() {
    let err = OrchestratorError::PhaseExecution {
        phase: "p".to_string(),
        message: "m".to_string(),
    };
    assert!(!err.to_string().is_empty());
    let err = OrchestratorError::PhaseTimeout {
        phase: "build".to_string(),
        timeout_ms: 100,
        elapsed_ms: 150,
    };
    assert_eq!(err.to_string(), "Phase 'build' timed out after 150ms (limit: 100ms)");
}

#[test]
fn test_timeout_error_implements_error() {
    let err = TimeoutError::InvalidTimeout("test".into());
    assert_eq!(err.to_string(), "Invalid timeout: test");

    let err = TimeoutError::TimeoutExceeded {
        phase_id: "p".into(),
        duration_ms: 100,
        timeout_ms: 50,
    };
    assert_eq!(err.to_string(), "Phase 'p' exceeded timeout of 50ms (took 100ms)");
}

#[test]
fn test_policy_error_implements_error() {
    let errors = [
        PolicyError::InvalidTimeout("t".into()),
        PolicyError::InvalidRetryPolicy("r".into()),
        PolicyError::TimeoutExceeded {
            phase_id: "p".into(),
            duration_ms: 100,
            timeout_ms: 50,
        },
        PolicyError::MaxRetriesExceeded {
            phase_id: "p".into(),
            attempts: 3,
            last_error: Box::new(PolicyError::InvalidTimeout("x".into())),
        },
        PolicyError::CircuitBreakerOpen {
            phase_id: "p".into(),
            open_until: 0,
        },
        PolicyError::NonRetryableError {
            phase_id: "p".into(),
            cause: "c".into(),
        },
    ];
    for err in &errors {
        assert!(!err.to_string().is_empty());
    }
}

#[test]
fn test_max_retries_exceeded_message() {
    let err = PolicyError::MaxRetriesExceeded {
        phase_id: "test".into(),
        attempts: 3,
        last_error: Box::new(PolicyError::InvalidTimeout("boom".into())),
    };
    assert!(err.to_string().contains("test"));
    assert!(err.to_string().contains("3 attempts"));
}

// --- PolicyConfig ---

fn opts() -> PolicyOpts {
    PolicyOpts {
        timeout_ms: 1000,
        max_retries: 3,
        base_delay_ms: 100,
        max_delay_ms: 1000,
        failure_threshold: 5,
        recovery_timeout_ms: 30_000,
    }
}

#[test]
fn test_policy_config_new_valid() {
    let config = PolicyConfig::new(opts()).expect("valid");
    assert_eq!(config.timeout.duration_ms(), 1000);
    assert_eq!(config.retry.max_retries(), 3);
    assert_eq!(config.circuit_breaker.failure_threshold(), 5);
    assert!(config.deadline.is_none());
    let with = config.with_deadline(Deadline::at(42));
    assert_eq!(with.deadline.map(|d| d.deadline_at()), Some(42));
}

#[test]
fn test_policy_config_errors_in_order() {
    let mut o = opts();
    o.timeout_ms = 0;
    o.base_delay_ms = 0;
    assert_eq!(
        PolicyConfig::new(o).unwrap_err(),
        ConfigError::InvalidTimeout { duration_ms: 0 }
    );
    let mut o = opts();
    o.base_delay_ms = 2000;
    assert_eq!(
        PolicyConfig::new(o).unwrap_err(),
        ConfigError::InvalidBaseDelay { delay_ms: 2000 }
    );
    let mut o = opts();
    o.failure_threshold = 0;
    assert_eq!(
        PolicyConfig::new(o).unwrap_err(),
        ConfigError::InvalidFailureThreshold { threshold: 0 }
    );
    let mut o = opts();
    o.recovery_timeout_ms = 0;
    assert_eq!(
        PolicyConfig::new(o).unwrap_err(),
        ConfigError::InvalidRecoveryTimeout { timeout_ms: 0 }
    );
}

fn patterns(ps: &[&str]) -> Vec<String> {
    ps.iter().map(|p| p.to_string()).collect()
}

#[test]
fn test_empty_retryable_errors_list_means_no_errors_retryable() {
    let ps = patterns(&[]);
    assert!(!is_retryable(&ps, "io error"));
    assert!(!is_retryable(&ps, "network error"));
}

#[test]
fn test_retryable_error_detection() {
    let ps = patterns(&["conn", "net"]);
    assert!(is_retryable(&ps, "connection refused"));
    assert!(is_retryable(&ps, "network error"));
    assert!(!is_retryable(&ps, "failed"));
    assert!(!is_retryable(&ps, "boom"));
}

#[test]
fn test_is_retryable_case_sensitive() {
    let ps = patterns(&["IO"]);
    assert!(is_retryable(&ps, "IO error"));
    assert!(!is_retryable(&ps, "io error"));
}

#[test]
fn test_is_retryable_empty_string() {
    let ps = patterns(&["timeout"]);
    assert!(!is_retryable(&ps, ""));
}

#[test]
fn test_retryable_errors_multiple_patterns() {
    let ps = patterns(&["a", "b", "c"]);
    assert!(is_retryable(&ps, "has a"));
    assert!(is_retryable(&ps, "has b"));
    assert!(is_retryable(&ps, "has c"));
    assert!(!is_retryable(&ps, "xyz"));
}

#[test]
fn test_is_retryable_partial_match() {
    assert!(is_retryable(&patterns(&["timeout"]), "connection timeout after 30s"));
}

#[test]
fn test_is_retryable_exact_match() {
    assert!(is_retryable(&patterns(&["timeout"]), "timeout"));
}

#[test]
fn test_is_retryable_prefix_match() {
    assert!(is_retryable(&patterns(&["err"]), "error in processing"));
}

#[test]
fn test_is_retryable_suffix_match() {
    assert!(is_retryable(&patterns(&["refused"]), "connection refused"));
}

#[test]
fn test_is_retryable_any_pattern_matches() {
    let ps = patterns(&["timeout", "refused", "reset"]);
    assert!(is_retryable(&ps, "connection reset by peer"));
    assert!(is_retryable(&ps, "timeout waiting for response"));
    assert!(is_retryable(&ps, "connection refused"));
    assert!(!is_retryable(&ps, "out of memory"));
}
