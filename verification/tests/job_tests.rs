//! Jobs: construction, the job state machine and priority sorting.

use orchestrator::queue::repository::sort_jobs_by_priority;
use orchestrator::queue::types::{Job, JobPayload, JobPriority, JobState, JobTransitionError};

fn now_ms() -> i64 {
    chrono::Utc::now().timestamp_millis()
}

fn task_job(id: &str, priority: JobPriority, command: &str) -> Job {
    Job::new(id.to_string(), priority, JobPayload::Task { command: command.to_string() })
}

fn create_test_job(id: &str, priority: JobPriority) -> Job {
    Job {
        id: id.to_string(),
        priority,
        payload: JobPayload::Task { command: "test".to_string() },
        state: JobState::Pending,
        created_at: now_ms(),
        updated_at: now_ms(),
    }
}

#[test]
fn test_job_new_with_pipeline_payload() {
    let job = Job::new(
        "pipe-1".to_string(),
        JobPriority::P0,
        JobPayload::Pipeline { spec_path: "specs/test.yaml".to_string() },
    );
    assert_eq!(job.id, "pipe-1");
    assert_eq!(job.priority, JobPriority::P0);
}

#[test]
fn test_job_new_with_custom_payload() {
    let mut data = serde_json::Map::new();
    data.insert("key".to_string(), serde_json::Value::String("value".to_string()));
    let job = Job::new(
        "custom-1".to_string(),
        JobPriority::P3,
        JobPayload::Custom { data: serde_json::Value::Object(data) },
    );
    assert_eq!(job.id, "custom-1");
}

#[test]
fn test_job_new_with_all_priorities() {
    let priorities = [JobPriority::P0, JobPriority::P1, JobPriority::P2, JobPriority::P3, JobPriority::P4];
    for (i, priority) in priorities.into_iter().enumerate() {
        let job = task_job(&format!("job-{i}"), priority, "test");
        assert_eq!(job.priority, priority);
    }
}

#[test]
fn test_job_transition_pending_to_running() {
    let mut job = task_job("job-1", JobPriority::P0, "run");
    assert!(job.state.is_pending());
    let result = job.transition_to(JobState::Running { started_at: now_ms() });
    assert!(result.is_ok());
    assert!(job.state.is_running());
}

#[test]
fn test_job_happy_path_pending_running_completed() {
    let mut job = task_job("job-1", JobPriority::P0, "run");
    assert!(job.state.is_pending());
    job.transition_to(JobState::Running { started_at: now_ms() }).expect("Pending → Running");
    assert!(job.state.is_running());
    job.transition_to(JobState::Completed { finished_at: now_ms() }).expect("Running → Completed");
    assert!(job.state.is_terminal());
}

#[test]
fn test_job_failure_path_pending_running_failed() {
    let mut job = Job::new(
        "job-2".to_string(),
        JobPriority::P1,
        JobPayload::Pipeline { spec_path: "specs/test.yaml".to_string() },
    );
    job.transition_to(JobState::Running { started_at: now_ms() }).expect("Pending → Running");
    job.transition_to(JobState::Failed { error: "out of memory".to_string(), failed_at: now_ms() })
        .expect("Running → Failed");
    assert!(job.state.is_terminal());
}

#[test]
fn test_completed_job_rejects_all_transitions() {
    let mut job = task_job("job-done", JobPriority::P0, "done");
    job.state = JobState::Completed { finished_at: now_ms() };
    let targets = [
        JobState::Pending,
        JobState::Running { started_at: now_ms() },
        JobState::Completed { finished_at: now_ms() },
        JobState::Failed { error: "err".to_string(), failed_at: now_ms() },
    ];
    for target in &targets {
        let result = job.transition_to(target.clone());
        assert!(result.is_err(), "Completed job should reject transition to {target:?}");
        assert!(
            matches!(result, Err(JobTransitionError::AlreadyTerminal { .. })),
            "Expected AlreadyTerminal error, got {result:?}"
        );
    }
}

#[test]
fn test_failed_job_rejects_all_transitions() {
    let mut job = task_job("job-failed", JobPriority::P0, "fail");
    job.state = JobState::Failed { error: "crash".to_string(), failed_at: now_ms() };
    let targets = [
        JobState::Pending,
        JobState::Running { started_at: now_ms() },
        JobState::Completed { finished_at: now_ms() },
        JobState::Failed { error: "again".to_string(), failed_at: now_ms() },
    ];
    for target in &targets {
        let result = job.transition_to(target.clone());
        assert!(result.is_err(), "Failed job should reject transition to {target:?}");
    }
}

#[test]
fn test_pending_cannot_go_directly_to_completed() {
    let mut job = task_job("job-1", JobPriority::P0, "test");
    let result = job.transition_to(JobState::Completed { finished_at: now_ms() });
    assert!(result.is_err());
    assert!(matches!(result, Err(JobTransitionError::InvalidTransition { .. })), "Expected InvalidTransition");
}

#[test]
fn test_pending_cannot_go_directly_to_failed() {
    let mut job = task_job("job-1", JobPriority::P0, "test");
    let result = job.transition_to(JobState::Failed { error: "err".to_string(), failed_at: now_ms() });
    assert!(result.is_err());
}

#[test]
fn test_running_cannot_go_back_to_pending() {
    let mut job = task_job("job-1", JobPriority::P0, "test");
    job.transition_to(JobState::Running { started_at: now_ms() }).expect("start");
    let result = job.transition_to(JobState::Pending);
    assert!(result.is_err());
}

#[test]
fn test_pending_self_transition_rejected() {
    let mut job = task_job("job-1", JobPriority::P0, "test");
    let result = job.transition_to(JobState::Pending);
    assert!(result.is_err());
}

#[test]
fn types_test_transition_updates_updated_at() {
    let mut job = task_job("job-1", JobPriority::P0, "test");
    job.transition_to(JobState::Running { started_at: now_ms() }).expect("start");
    assert!(job.state.is_running());
}

#[test]
fn test_job_full_lifecycle_success() {
    let mut job = task_job("lifecycle-ok", JobPriority::P2, "build");
    assert!(job.state.is_pending());
    assert!(!job.state.is_terminal());
    job.transition_to(JobState::Running { started_at: now_ms() }).expect("start");
    assert!(job.state.is_running());
    job.transition_to(JobState::Completed { finished_at: now_ms() }).expect("complete");
    assert!(job.state.is_terminal());
}

#[test]
fn test_job_full_lifecycle_failure() {
    let mut job = task_job("lifecycle-fail", JobPriority::P2, "build");
    job.transition_to(JobState::Running { started_at: now_ms() }).expect("start");
    job.transition_to(JobState::Failed { error: "exit code 1".to_string(), failed_at: now_ms() }).expect("fail");
    assert!(job.state.is_terminal());
}

#[test]
fn test_all_invalid_transitions_from_pending() {
    let mut job = task_job("test", JobPriority::P0, "x");
    assert!(job.transition_to(JobState::Pending).is_err());
    assert!(job.transition_to(JobState::Completed { finished_at: now_ms() }).is_err());
    assert!(job.transition_to(JobState::Failed { error: "x".to_string(), failed_at: now_ms() }).is_err());
}

#[test]
fn test_all_invalid_transitions_from_running() {
    let mut job = task_job("test", JobPriority::P0, "x");
    job.transition_to(JobState::Running { started_at: now_ms() }).expect("start");
    assert!(job.transition_to(JobState::Pending).is_err());
    assert!(job.transition_to(JobState::Running { started_at: now_ms() }).is_err());
}

#[test]
fn test_valid_transition_table_is_exhaustive() {
    let cases: Vec<(JobState, JobState, bool)> = vec![
        (JobState::Pending, JobState::Running { started_at: now_ms() }, true),
        (JobState::Running { started_at: now_ms() }, JobState::Completed { finished_at: now_ms() }, true),
        (
            JobState::Running { started_at: now_ms() },
            JobState::Failed { error: "x".to_string(), failed_at: now_ms() },
            true,
        ),
        (JobState::Pending, JobState::Pending, false),
        (JobState::Pending, JobState::Completed { finished_at: now_ms() }, false),
        (JobState::Completed { finished_at: now_ms() }, JobState::Running { started_at: now_ms() }, false),
        (JobState::Failed { error: "x".to_string(), failed_at: now_ms() }, JobState::Pending, false),
    ];
    for (from, to, should_succeed) in &cases {
        let mut job = task_job("test", JobPriority::P0, "x");
        job.state = from.clone();
        let result = job.transition_to(to.clone());
        assert_eq!(
            result.is_ok(),
            *should_succeed,
            "Transition {from:?} → {to:?}: expected success={should_succeed}, got {result:?}"
        );
    }
}

#[test]
fn queue_test_job_priority_ordering() {
    let mut jobs = vec![
        create_test_job("1", JobPriority::P2),
        create_test_job("2", JobPriority::P0),
        create_test_job("3", JobPriority::P4),
        create_test_job("4", JobPriority::P1),
    ];
    sort_jobs_by_priority(&mut jobs);
    assert_eq!(jobs[0].id, "2");
    assert_eq!(jobs[1].id, "4");
    assert_eq!(jobs[2].id, "1");
    assert_eq!(jobs[3].id, "3");
}

#[test]
fn test_sort_all_priority_levels() {
    let mut jobs = vec![
        create_test_job("p4", JobPriority::P4),
        create_test_job("p2", JobPriority::P2),
        create_test_job("p0", JobPriority::P0),
        create_test_job("p3", JobPriority::P3),
        create_test_job("p1", JobPriority::P1),
    ];
    sort_jobs_by_priority(&mut jobs);
    assert_eq!(jobs.iter().map(|j| j.priority.value()).collect::<Vec<_>>(), vec![0, 1, 2, 3, 4]);
}

#[test]
fn test_sort_two_elements_different_priority() {
    let mut jobs = vec![create_test_job("low", JobPriority::P4), create_test_job("high", JobPriority::P0)];
    sort_jobs_by_priority(&mut jobs);
    assert_eq!(jobs[0].id, "high");
    assert_eq!(jobs[1].id, "low");
}

#[test]
fn test_sort_already_sorted() {
    let mut jobs = vec![
        create_test_job("p0", JobPriority::P0),
        create_test_job("p1", JobPriority::P1),
        create_test_job("p2", JobPriority::P2),
    ];
    sort_jobs_by_priority(&mut jobs);
    assert_eq!(jobs[0].id, "p0");
    assert_eq!(jobs[1].id, "p1");
    assert_eq!(jobs[2].id, "p2");
}

#[test]
fn test_sort_reverse_sorted() {
    let mut jobs = vec![
        create_test_job("p4", JobPriority::P4),
        create_test_job("p3", JobPriority::P3),
        create_test_job("p2", JobPriority::P2),
        create_test_job("p1", JobPriority::P1),
        create_test_job("p0", JobPriority::P0),
    ];
    sort_jobs_by_priority(&mut jobs);
    for i in 0..5 {
        assert_eq!(jobs[i].id, format!("p{i}"));
    }
}

#[test]
fn test_job_transition_error_display_invalid() {
    let err = JobTransitionError::InvalidTransition {
        from: JobState::Pending,
        to: JobState::Completed { finished_at: now_ms() },
    };
    let msg = err.to_string();
    assert!(msg.contains("Invalid job transition"));
}

#[test]
fn test_job_transition_error_display_already_terminal() {
    let err = JobTransitionError::AlreadyTerminal { current: JobState::Completed { finished_at: now_ms() } };
    let msg = err.to_string();
    assert!(msg.contains("already in terminal state"));
}

#[test]
fn job_transition_messages_name_the_states() {
    let err = JobTransitionError::InvalidTransition {
        from: JobState::Running { started_at: -5 },
        to: JobState::Failed { error: "disk".to_string(), failed_at: 42 },
    };
    assert_eq!(
        err.to_string(),
        "Invalid job transition from Running { started_at: -5 } to Failed { error: \"disk\", failed_at: 42 }"
    );
    let err = JobTransitionError::AlreadyTerminal { current: JobState::Completed { finished_at: 7 } };
    assert_eq!(err.to_string(), "Job already in terminal state: Completed { finished_at: 7 }");
    let mut job = task_job("j", JobPriority::P0, "x");
    let refused = job.transition_to(JobState::Pending).unwrap_err();
    assert_eq!(refused.to_string(), "Invalid job transition from Pending to Pending");
}
