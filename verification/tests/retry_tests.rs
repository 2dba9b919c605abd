//! The backoff retry policy and the policy configuration.

use orchestrator::policies::circuit_breaker::{CircuitBreaker, CircuitBreakerState};
use orchestrator::policies::deadline::Deadline;
use orchestrator::policies::retry::RetryPolicy;
use orchestrator::policies::{PolicyConfig, PolicyOpts};

fn opts(
    timeout_ms: u64,
    max_retries: u32,
    base_delay_ms: u64,
    max_delay_ms: u64,
    failure_threshold: u32,
    recovery_timeout_ms: u64,
) -> PolicyOpts {
    PolicyOpts { timeout_ms, max_retries, base_delay_ms, max_delay_ms, failure_threshold, recovery_timeout_ms }
}

#[test]
fn retry_test_retry_policy_new_valid() {
    let policy = RetryPolicy::new(3, 100, 1000).expect("should create policy");
    assert_eq!(policy.max_retries(), 3);
}

#[test]
fn retry_test_retry_policy_new_zero_base_delay() {
    let result = RetryPolicy::new(3, 0, 1000);
    assert!(result.is_err());
}

#[test]
fn retry_test_retry_policy_new_max_less_than_base() {
    let result = RetryPolicy::new(3, 100, 50);
    assert!(result.is_err());
}

#[test]
fn retry_test_retry_policy_calculate_delay() {
    let policy = RetryPolicy::new(3, 100, 1000).expect("should create policy");
    assert_eq!(policy.calculate_delay(0), 100);
    assert_eq!(policy.calculate_delay(1), 200);
    assert_eq!(policy.calculate_delay(2), 400);
    assert_eq!(policy.calculate_delay(3), 800);
}

#[test]
fn retry_test_retry_policy_calculate_delay_capped() {
    let policy = RetryPolicy::new(10, 100, 500).expect("should create policy");
    assert_eq!(policy.calculate_delay(10), 500);
}

#[test]
fn test_retry_policy_calculate_delay_zero_attempt() {
    let policy = RetryPolicy::new(5, 200, 5000).expect("should create policy");
    assert_eq!(policy.calculate_delay(0), 200);
}

#[test]
fn test_retry_policy_base_delay_equals_max() {
    let policy = RetryPolicy::new(5, 500, 500).expect("should create");
    assert_eq!(policy.calculate_delay(0), 500);
    assert_eq!(policy.calculate_delay(1), 500);
}

#[test]
fn test_retry_policy_new_equal_base_and_max() {
    let policy = RetryPolicy::new(3, 500, 500).expect("should create");
    assert_eq!(policy.max_retries(), 3);
}

#[test]
fn retry_test_max_retries_zero_means_single_attempt() {
    let policy = RetryPolicy::new(0, 100, 1000).expect("ok");
    assert_eq!(policy.max_retries(), 0);
    assert_eq!(policy.total_attempts(), 1);
}

#[test]
fn retry_test_max_retries_one() {
    let policy = RetryPolicy::new(1, 100, 1000).expect("ok");
    assert_eq!(policy.max_retries(), 1);
    assert_eq!(policy.total_attempts(), 2);
}

#[test]
fn retry_test_max_retries_large_value() {
    let policy = RetryPolicy::new(10_000, 100, 1000).expect("ok");
    assert_eq!(policy.max_retries(), 10_000);
    assert_eq!(policy.total_attempts(), 10_001);
}

#[test]
fn retry_test_max_retries_max_u32() {
    let policy = RetryPolicy::new(u32::MAX, 100, 1000).expect("ok");
    assert_eq!(policy.max_retries(), u32::MAX);
}

#[test]
fn retry_test_max_retries_independent_of_delay_config() {
    let p1 = RetryPolicy::new(5, 10, 100).expect("ok");
    let p2 = RetryPolicy::new(5, 999, 9999).expect("ok");
    assert_eq!(p1.max_retries(), p2.max_retries());
    assert_eq!(p1.total_attempts(), p2.total_attempts());
}

#[test]
fn retry_test_backoff_cap_activates_at_exact_boundary() {
    let policy = RetryPolicy::new(10, 100, 800).expect("ok");
    assert_eq!(policy.calculate_delay(2), 400);
    assert_eq!(policy.calculate_delay(3), 800);
    assert_eq!(policy.calculate_delay(4), 800);
    assert_eq!(policy.calculate_delay(100), 800);
}

#[test]
fn test_backoff_monotonically_increasing() {
    let policy = RetryPolicy::new(50, 1, 1_000_000).expect("ok");
    let mut prev = 0u64;
    for attempt in 0..20 {
        let delay = policy.calculate_delay(attempt);
        assert!(delay >= prev, "Non-monotonic at attempt {attempt}: {delay} < {prev}");
        prev = delay;
    }
}

#[test]
fn retry_test_backoff_attempt_zero_always_equals_base() {
    let cases = [(100, 1000), (1, 1), (500, 500), (999, 1000)];
    for (base, max) in cases {
        let policy = RetryPolicy::new(5, base, max).expect("ok");
        assert_eq!(policy.calculate_delay(0), base, "base={base}, max={max}");
    }
}

#[test]
fn test_backoff_max_equals_base_means_constant_delay() {
    let policy = RetryPolicy::new(5, 200, 200).expect("ok");
    for attempt in 0..20 {
        assert_eq!(policy.calculate_delay(attempt), 200);
    }
}

#[test]
fn retry_test_backoff_saturating_no_panic_on_large_base() {
    let policy = RetryPolicy::new(5, u64::MAX / 2, u64::MAX).expect("ok");
    let delay = policy.calculate_delay(1);
    assert!(delay > 0);
    assert!(delay <= u64::MAX);
}

#[test]
fn test_backoff_base_above_max_rejected() {
    let result = RetryPolicy::new(5, 1000, 100);
    assert!(result.is_err());
}

#[test]
fn test_backoff_large_base_with_small_cap() {
    let policy = RetryPolicy::new(5, 10_000, 10_000).expect("ok");
    assert_eq!(policy.calculate_delay(0), 10_000);
    assert_eq!(policy.calculate_delay(1), 10_000);
}

#[test]
fn test_total_attempts_one_for_zero_retries() {
    let policy = RetryPolicy::new(0, 100, 1000).expect("ok");
    assert_eq!(policy.total_attempts(), 1);
}

#[test]
fn test_total_attempts_two_for_one_retry() {
    let policy = RetryPolicy::new(1, 100, 1000).expect("ok");
    assert_eq!(policy.total_attempts(), 2);
}

#[test]
fn test_total_attempts_equals_max_retries_plus_one() {
    for retries in [0, 1, 3, 5, 10, 50, 100] {
        let policy = RetryPolicy::new(retries, 100, 1000).expect("ok");
        assert_eq!(policy.total_attempts(), retries + 1);
    }
}

#[test]
fn test_validation_rejects_zero_base_delay() {
    let err = RetryPolicy::new(3, 0, 1000).unwrap_err();
    let msg = err.to_string();
    assert!(msg.contains("Base delay"));
}

#[test]
fn test_validation_accepts_equal_base_and_max() {
    assert!(RetryPolicy::new(3, 500, 500).is_ok());
}

#[test]
fn test_validation_accepts_one_ms_base_delay() {
    assert!(RetryPolicy::new(3, 1, 1).is_ok());
}

#[test]
fn test_validation_error_display_messages() {
    let err1 = RetryPolicy::new(3, 0, 1000).unwrap_err();
    assert!(err1.to_string().contains("Base delay"));
    let err2 = RetryPolicy::new(3, 200, 100).unwrap_err();
    let msg = err2.to_string();
    assert!(msg.contains("Max delay") || msg.contains("base delay"));
}

#[test]
fn retry_test_copy_semantics() {
    let p1 = RetryPolicy::new(3, 100, 1000).expect("ok");
    let p2 = p1;
    assert_eq!(p1.max_retries(), p2.max_retries());
    assert_eq!(p1.calculate_delay(0), p2.calculate_delay(0));
}

#[test]
fn test_clone_produces_equal_policy() {
    let p1 = RetryPolicy::new(3, 100, 1000).expect("ok");
    let p2 = p1.clone();
    assert_eq!(p1.max_retries(), p2.max_retries());
    assert_eq!(p1.calculate_delay(5), p2.calculate_delay(5));
}

#[test]
fn test_debug_format() {
    let policy = RetryPolicy::new(3, 100, 1000).expect("ok");
    let debug = format!("{policy:?}");
    assert!(debug.contains("RetryPolicy"));
}

#[test]
fn policies_test_retry_policy_new_valid() {
    let policy = RetryPolicy::new(3, 100, 1000).expect("should create policy");
    assert_eq!(policy.max_retries(), 3);
}

#[test]
fn policies_test_retry_policy_new_zero_base_delay() {
    let result = RetryPolicy::new(3, 0, 1000);
    assert!(result.is_err());
}

#[test]
fn policies_test_retry_policy_new_max_less_than_base() {
    let result = RetryPolicy::new(3, 100, 50);
    assert!(result.is_err());
}

#[test]
fn policies_test_retry_policy_calculate_delay() {
    let policy = RetryPolicy::new(3, 100, 1000).expect("should create policy");
    assert_eq!(policy.calculate_delay(0), 100);
    assert_eq!(policy.calculate_delay(1), 200);
    assert_eq!(policy.calculate_delay(2), 400);
    assert_eq!(policy.calculate_delay(3), 800);
}

#[test]
fn policies_test_retry_policy_calculate_delay_capped() {
    let policy = RetryPolicy::new(10, 100, 500).expect("should create policy");
    assert_eq!(policy.calculate_delay(10), 500);
}

#[test]
fn policies_test_circuit_breaker_new_valid() {
    let cb = CircuitBreaker::with_recovery_timeout(3, 5000).expect("should create circuit breaker");
    assert_eq!(cb.state(), CircuitBreakerState::Closed);
}

#[test]
fn policies_test_circuit_breaker_new_zero_threshold() {
    let result = CircuitBreaker::with_recovery_timeout(0, 5000);
    assert!(result.is_err());
}

#[test]
fn policies_test_circuit_breaker_opens_after_threshold() {
    let mut cb = CircuitBreaker::with_recovery_timeout(3, 5000).expect("should create circuit breaker");
    cb.record_failure();
    cb.record_failure();
    assert_eq!(cb.state(), CircuitBreakerState::Closed);
    cb.record_failure();
    assert_eq!(cb.state(), CircuitBreakerState::Open);
}

#[test]
fn policies_test_circuit_breaker_record_success_clears_failures() {
    let mut cb = CircuitBreaker::with_recovery_timeout(3, 5000).expect("should create circuit breaker");
    cb.record_failure();
    cb.record_failure();
    cb.record_success();
    assert_eq!(cb.failure_count(), 0);
}

#[test]
fn policies_test_circuit_breaker_open_rejects() {
    let mut cb = CircuitBreaker::with_recovery_timeout(2, 5000).expect("should create circuit breaker");
    cb.record_failure();
    cb.record_failure();
    assert!(!cb.can_execute());
}

#[test]
fn circuit_test_circuit_breaker_new_valid() {
    let cb = CircuitBreaker::with_recovery_timeout(3, 5000).expect("should create circuit breaker");
    assert_eq!(cb.state(), CircuitBreakerState::Closed);
}

#[test]
fn circuit_test_circuit_breaker_new_zero_threshold() {
    let result = CircuitBreaker::with_recovery_timeout(0, 5000);
    assert!(result.is_err());
}

#[test]
fn circuit_test_circuit_breaker_opens_after_threshold() {
    let mut cb = CircuitBreaker::with_recovery_timeout(3, 5000).expect("should create circuit breaker");
    cb.record_failure();
    cb.record_failure();
    assert_eq!(cb.state(), CircuitBreakerState::Closed);
    cb.record_failure();
    assert_eq!(cb.state(), CircuitBreakerState::Open);
}

#[test]
fn circuit_test_circuit_breaker_record_success_clears_failures() {
    let mut cb = CircuitBreaker::with_recovery_timeout(3, 5000).expect("should create circuit breaker");
    cb.record_failure();
    cb.record_failure();
    cb.record_success();
    assert_eq!(cb.failure_count(), 0);
}

#[test]
fn circuit_test_circuit_breaker_open_rejects() {
    let mut cb = CircuitBreaker::with_recovery_timeout(2, 5000).expect("should create circuit breaker");
    cb.record_failure();
    cb.record_failure();
    assert!(!cb.can_execute());
}

#[test]
fn test_deadline_is_exceeded() {
    let deadline = Deadline::from_now(1000);
    assert!(!deadline.is_exceeded());
}

#[test]
fn test_deadline_remaining_ms() {
    let deadline = Deadline::from_now(5000);
    let remaining = deadline.remaining_ms();
    assert!(remaining >= 4900 && remaining <= 5100);
}

#[test]
fn policies_test_policy_config_new_valid() {
    let config = PolicyConfig::new(opts(1000, 3, 100, 1000, 3, 5000)).expect("should create config");
    assert_eq!(config.timeout.duration_ms(), 1000);
    assert_eq!(config.retry.max_retries(), 3);
    assert_eq!(config.circuit_breaker.failure_count(), 0);
}

#[test]
fn mod_test_policy_config_new_valid() {
    let config = PolicyConfig::new(opts(1000, 3, 100, 1000, 3, 5000)).expect("should create config");
    assert_eq!(config.timeout.duration_ms(), 1000);
    assert_eq!(config.retry.max_retries(), 3);
    assert_eq!(config.circuit_breaker.failure_count(), 0);
}

#[test]
fn test_policy_config_with_deadline() {
    let config = PolicyConfig::new(opts(1000, 3, 100, 1000, 3, 5000))
        .expect("should create config")
        .with_deadline(Deadline::from_now(60000));
    assert!(config.deadline.is_some());
    assert!(!config.deadline.as_ref().unwrap().is_exceeded());
}

#[test]
fn test_policy_config_default_no_deadline() {
    let config = PolicyConfig::new(opts(1000, 3, 100, 1000, 3, 5000)).expect("should create config");
    assert!(config.deadline.is_none());
}

#[test]
fn test_policy_config_invalid_timeout_zero() {
    let result = PolicyConfig::new(opts(0, 3, 100, 1000, 3, 5000));
    assert!(result.is_err());
}

#[test]
fn test_policy_config_invalid_base_delay_zero() {
    let result = PolicyConfig::new(opts(1000, 3, 0, 1000, 3, 5000));
    assert!(result.is_err());
}

#[test]
fn test_policy_config_invalid_max_delay_less_than_base() {
    let result = PolicyConfig::new(opts(1000, 3, 500, 100, 3, 5000));
    assert!(result.is_err());
}

#[test]
fn test_policy_config_invalid_failure_threshold_zero() {
    let result = PolicyConfig::new(opts(1000, 3, 100, 1000, 0, 5000));
    assert!(result.is_err());
}

#[test]
fn test_policy_config_invalid_recovery_timeout_zero() {
    let result = PolicyConfig::new(opts(1000, 3, 100, 1000, 3, 0));
    assert!(result.is_err());
}
