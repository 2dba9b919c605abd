//! The timeout policy, and deadlines and phase timeouts built from it.

use orchestrator::policies::deadline::Deadline;
use orchestrator::policies::timeout::PhaseTimeout;
use orchestrator::policies::timeout_policy::{TimeoutPolicy, TimeoutPolicyError};

fn now_ms() -> i64 {
    chrono::Utc::now().timestamp_millis()
}

#[test]
fn test_new_valid_timeout() {
    let policy = TimeoutPolicy::new(5000).expect("should create policy");
    assert_eq!(policy.get_timeout_ms(), Some(5000));
    assert!(!policy.is_none());
}

#[test]
fn test_new_minimum_valid_timeout() {
    let policy = TimeoutPolicy::new(1).expect("1ms is the minimum valid timeout");
    assert_eq!(policy.get_timeout_ms(), Some(1));
}

#[test]
fn test_new_zero_timeout_returns_error() {
    let result = TimeoutPolicy::new(0);
    assert!(result.is_err());
    assert_eq!(result.unwrap_err(), TimeoutPolicyError::ZeroTimeout);
}

#[test]
fn test_new_max_u64_timeout() {
    let policy = TimeoutPolicy::new(u64::MAX).expect("u64::MAX is valid");
    assert_eq!(policy.get_timeout_ms(), Some(u64::MAX));
}

#[test]
fn test_none_creates_infinite_timeout() {
    let policy = TimeoutPolicy::none();
    assert!(policy.is_none());
    assert_eq!(policy.get_timeout_ms(), None);
}

#[test]
fn test_get_timeout_ms_returns_value_for_finite_policy() {
    let policy = TimeoutPolicy::new(12345).unwrap();
    assert_eq!(policy.get_timeout_ms(), Some(12345));
}

#[test]
fn test_get_timeout_ms_returns_none_for_infinite_policy() {
    let policy = TimeoutPolicy::none();
    assert_eq!(policy.get_timeout_ms(), None);
}

#[test]
fn test_is_none_false_for_finite_policy() {
    let policy = TimeoutPolicy::new(100).unwrap();
    assert!(!policy.is_none());
}

#[test]
fn test_is_none_true_for_infinite_policy() {
    assert!(TimeoutPolicy::none().is_none());
}

#[test]
fn test_equal_policies() {
    assert_eq!(TimeoutPolicy::new(5000).unwrap(), TimeoutPolicy::new(5000).unwrap());
}

#[test]
fn test_unequal_policies() {
    assert_ne!(TimeoutPolicy::new(5000).unwrap(), TimeoutPolicy::new(10000).unwrap());
}

#[test]
fn test_none_not_equal_to_finite() {
    assert_ne!(TimeoutPolicy::none(), TimeoutPolicy::new(5000).unwrap());
}

#[test]
fn test_none_equal_to_none() {
    assert_eq!(TimeoutPolicy::none(), TimeoutPolicy::none());
}

#[test]
fn timeout_policy_test_copy_semantics() {
    let policy = TimeoutPolicy::new(3000).unwrap();
    let copy = policy;
    assert_eq!(policy, copy);
}

#[test]
fn test_error_display_message() {
    let msg = TimeoutPolicyError::ZeroTimeout.to_string();
    assert!(msg.contains("timeout must be greater than 0ms"));
}

#[test]
fn test_error_equality() {
    assert_eq!(TimeoutPolicyError::ZeroTimeout, TimeoutPolicyError::ZeroTimeout);
}

#[test]
fn timeout_policy_test_error_clone() {
    let err = TimeoutPolicyError::ZeroTimeout;
    let cloned = err.clone();
    assert_eq!(err, cloned);
}

#[test]
fn test_deadline_from_policy_expires_after_timeout() {
    let policy = TimeoutPolicy::new(50).unwrap();
    let timeout_ms = policy.get_timeout_ms().expect("should have timeout");
    let deadline = Deadline::from_now(timeout_ms);
    assert!(!deadline.is_exceeded());
    let expired = Deadline::at(now_ms() - 100);
    assert!(expired.is_exceeded());
}

#[test]
fn test_deadline_from_policy_not_expired_before_timeout() {
    let policy = TimeoutPolicy::new(5000).unwrap();
    let timeout_ms = policy.get_timeout_ms().expect("should have timeout");
    let deadline = Deadline::from_now(timeout_ms);
    assert!(!deadline.is_exceeded());
    assert!(deadline.remaining_ms() > 4000);
}

#[test]
fn test_none_policy_means_no_deadline() {
    let policy = TimeoutPolicy::none();
    assert!(policy.get_timeout_ms().is_none());
}

#[test]
fn test_phase_timeout_from_policy_value_expires() {
    let policy = TimeoutPolicy::new(50).unwrap();
    let timeout_ms = policy.get_timeout_ms().expect("should have timeout");
    let phase = PhaseTimeout::new(timeout_ms).expect("should create");
    let started_past = now_ms() - 100;
    assert!(phase.is_expired(started_past));
}

#[test]
fn test_phase_timeout_from_policy_value_not_expired() {
    let policy = TimeoutPolicy::new(5000).unwrap();
    let timeout_ms = policy.get_timeout_ms().expect("should have timeout");
    let phase = PhaseTimeout::new(timeout_ms).expect("should create");
    let started_now = now_ms();
    assert!(!phase.is_expired(started_now));
}

#[test]
fn test_phase_timeout_boundary_expiration() {
    let policy = TimeoutPolicy::new(10).unwrap();
    let timeout_ms = policy.get_timeout_ms().expect("should have timeout");
    let phase = PhaseTimeout::new(timeout_ms).expect("should create");
    let started_at_boundary = now_ms() - timeout_ms as i64;
    assert!(phase.is_expired(started_at_boundary));
}

#[test]
fn test_zero_timeout_rejected_consistently() {
    for _ in 0..10 {
        assert!(TimeoutPolicy::new(0).is_err());
    }
}

#[test]
fn test_one_ms_timeout_is_valid() {
    let policy = TimeoutPolicy::new(1).unwrap();
    assert_eq!(policy.get_timeout_ms(), Some(1));
}

#[test]
fn test_infinite_timeout_means_no_deadline() {
    let policy = TimeoutPolicy::none();
    assert!(policy.is_none());
    assert!(policy.get_timeout_ms().is_none());
}

#[test]
fn test_debug_format_finite() {
    let policy = TimeoutPolicy::new(999).unwrap();
    let debug = format!("{policy:?}");
    assert!(debug.contains("TimeoutPolicy"));
}

#[test]
fn test_debug_format_none() {
    let policy = TimeoutPolicy::none();
    let debug = format!("{policy:?}");
    assert!(debug.contains("TimeoutPolicy"));
}
