//! Exactly-once execution: keys, journal entries, receipts, deduplication
//! and the executor.

use orchestrator::exactly_once::dedup::{DedupDecision, OperationDeduplicator};
use orchestrator::exactly_once::journal::InMemoryJournal;
use orchestrator::exactly_once::store::InMemoryReceiptStore;
use orchestrator::exactly_once::types::{
    IdempotencyKey, IdempotencyKeyError, JournalEntry, JournalTransitionError, OperationStatus,
    Receipt,
};
use orchestrator::exactly_once::{
    ExactlyOnceError, ExactlyOnceResult, ExecutionResult, ExecutionStep,
    InMemoryExactlyOnceExecutor,
};

fn obj(pairs: &[(&str, &str)]) -> serde_json::Value {
    let mut m = serde_json::Map::new();
    for (k, v) in pairs {
        m.insert(k.to_string(), serde_json::Value::String(v.to_string()));
    }
    serde_json::Value::Object(m)
}

fn success_op(_payload: serde_json::Value) -> ExactlyOnceResult<serde_json::Value> {
    Ok(obj(&[("status", "ok")]))
}

fn fail_op(_payload: serde_json::Value) -> ExactlyOnceResult<serde_json::Value> {
    Err(ExactlyOnceError::OperationFailed(
        "intentional failure".to_string(),
    ))
}

/// Begin, run the operation when asked to, and finish.
fn execute(
    executor: &mut InMemoryExactlyOnceExecutor,
    key: IdempotencyKey,
    payload: serde_json::Value,
    op: fn(serde_json::Value) -> ExactlyOnceResult<serde_json::Value>,
) -> ExactlyOnceResult<ExecutionResult> {
    match executor.begin(key.clone(), payload)? {
        ExecutionStep::Deduplicated(result) => Ok(result),
        ExecutionStep::Run(p) => executor.finish(key, op(p)),
    }
}

fn test_entry(name: &str) -> JournalEntry {
    JournalEntry::new_intended(IdempotencyKey::from_static(name), obj(&[("op", name)]))
}

#[test]
fn test_idempotency_key_new_valid() {
    let key = IdempotencyKey::new("op-123".to_string());
    assert!(key.is_ok());
    assert_eq!(key.as_ref().unwrap().as_str(), "op-123");
}

#[test]
fn test_idempotency_key_new_empty_rejected() {
    let key = IdempotencyKey::new(String::new());
    assert!(key.is_err());
    assert_eq!(key.unwrap_err(), IdempotencyKeyError::Empty);
}

#[test]
fn test_idempotency_key_new_too_long_rejected() {
    let long = "a".repeat(300);
    let key = IdempotencyKey::new(long);
    assert!(key.is_err());
    match key.unwrap_err() {
        IdempotencyKeyError::TooLong { len, max } => {
            assert_eq!(len, 300);
            assert_eq!(max, 256);
        }
        other => panic!("Expected TooLong, got {other:?}"),
    }
}

#[test]
fn test_idempotency_key_length_counts_bytes() {
    // 100 three-byte characters: 300 bytes.
    let long = "€".repeat(100);
    match IdempotencyKey::new(long) {
        Err(IdempotencyKeyError::TooLong { len, max }) => {
            assert_eq!(len, 300);
            assert_eq!(max, 256);
        }
        _ => panic!("expected TooLong"),
    }
}

#[test]
fn test_idempotency_key_generate_unique() {
    let a = IdempotencyKey::generate();
    let b = IdempotencyKey::generate();
    assert_ne!(a, b);
    assert_eq!(a.as_str().len(), 36);
}

#[test]
fn test_idempotency_key_display() {
    let key = IdempotencyKey::from_static("test-key");
    assert_eq!(key.to_string(), "test-key");
}

#[test]
fn test_operation_status_terminal() {
    assert!(!OperationStatus::Intended.is_terminal());
    assert!(!OperationStatus::InProgress.is_terminal());
    assert!(OperationStatus::Completed.is_terminal());
    assert!(OperationStatus::Failed.is_terminal());
}

#[test]
fn test_receipt_new() {
    let key = IdempotencyKey::from_static("op-1");
    let receipt = Receipt::new(key.clone());
    assert_eq!(receipt.key, key);
    assert!(receipt.result_hash.is_none());
}

#[test]
fn test_receipt_with_hash() {
    let key = IdempotencyKey::from_static("op-1");
    let receipt = Receipt::with_hash(key, "abc123".to_string());
    assert_eq!(receipt.result_hash.as_deref(), Some("abc123"));
}

#[test]
fn test_journal_entry_new_intended() {
    let key = IdempotencyKey::from_static("op-1");
    let entry = JournalEntry::new_intended(key.clone(), obj(&[("cmd", "merge")]));
    assert_eq!(entry.key, key);
    assert_eq!(entry.status, OperationStatus::Intended);
    assert_eq!(entry.created_at, entry.updated_at);
}

#[test]
fn test_journal_entry_valid_transitions() {
    let key = IdempotencyKey::from_static("op-1");
    let entry = JournalEntry::new_intended(key, obj(&[("cmd", "merge")]));

    let in_progress = entry
        .transition_to(OperationStatus::InProgress)
        .expect("intended -> in_progress");
    assert_eq!(in_progress.status, OperationStatus::InProgress);

    let completed = in_progress
        .transition_to(OperationStatus::Completed)
        .expect("in_progress -> completed");
    assert_eq!(completed.status, OperationStatus::Completed);
}

#[test]
fn test_journal_entry_failed_transition() {
    let key = IdempotencyKey::from_static("op-1");
    let entry = JournalEntry::new_intended(key, obj(&[("cmd", "merge")]));
    let in_progress = entry
        .transition_to(OperationStatus::InProgress)
        .expect("intended -> in_progress");
    let failed = in_progress
        .transition_to(OperationStatus::Failed)
        .expect("in_progress -> failed");
    assert_eq!(failed.status, OperationStatus::Failed);
}

#[test]
fn test_journal_entry_terminal_rejects() {
    let key = IdempotencyKey::from_static("op-1");
    let entry = JournalEntry::new_intended(key, obj(&[]));
    let completed = entry
        .transition_to(OperationStatus::InProgress)
        .and_then(|e| e.transition_to(OperationStatus::Completed))
        .expect("completed");

    let result = completed.transition_to(OperationStatus::InProgress);
    assert!(result.is_err());
    assert_eq!(
        result.unwrap_err(),
        JournalTransitionError::AlreadyTerminal {
            current: OperationStatus::Completed
        }
    );
}

#[test]
fn test_journal_entry_with_error() {
    let key = IdempotencyKey::from_static("op-1");
    let entry = JournalEntry::new_intended(key, obj(&[]));
    let failed = entry
        .transition_to(OperationStatus::InProgress)
        .and_then(|e| e.transition_to(OperationStatus::Failed))
        .expect("failed");
    let with_err = failed.with_error("disk full".to_string());
    assert_eq!(with_err.error.as_deref(), Some("disk full"));
}

#[test]
fn test_idempotency_key_error_display() {
    let err = IdempotencyKeyError::Empty;
    assert!(err.to_string().contains("empty"));

    let err = IdempotencyKeyError::TooLong { len: 300, max: 256 };
    assert!(err.to_string().contains("300"));
    assert_eq!(err.to_string(), "IdempotencyKey too long: 300 chars (max 256)");
}

#[test]
fn test_journal_transition_error_display() {
    let err = JournalTransitionError::InvalidTransition {
        from: OperationStatus::Intended,
        to: OperationStatus::Completed,
    };
    assert!(err.to_string().contains("Invalid"));

    let err = JournalTransitionError::AlreadyTerminal {
        current: OperationStatus::Completed,
    };
    assert!(err.to_string().contains("terminal"));
}

#[test]
fn test_idempotency_key_boundary_length() {
    let exactly_256 = "a".repeat(256);
    assert!(IdempotencyKey::new(exactly_256).is_ok());

    let at_257 = "a".repeat(257);
    assert!(IdempotencyKey::new(at_257).is_err());
}

#[test]
fn test_intended_cannot_go_directly_to_completed() {
    let key = IdempotencyKey::from_static("skip");
    let entry = JournalEntry::new_intended(key, obj(&[]));
    let result = entry.transition_to(OperationStatus::Completed);
    assert!(result.is_err());
}

#[test]
fn test_intended_cannot_go_directly_to_failed() {
    let key = IdempotencyKey::from_static("skip-fail");
    let entry = JournalEntry::new_intended(key, obj(&[]));
    let result = entry.transition_to(OperationStatus::Failed);
    assert!(result.is_err());
}

// --- Journal ---

#[test]
fn test_append_and_get() {
    let mut journal = InMemoryJournal::new();
    let entry = test_entry("op-1");
    let key = entry.key.clone();

    journal.append(entry).expect("append");
    let retrieved = journal.get(&key).expect("get");
    assert!(retrieved.is_some());
    assert_eq!(retrieved.as_ref().map(|e| &e.key), Some(&key));
}

#[test]
fn test_get_nonexistent() {
    let journal = InMemoryJournal::new();
    let key = IdempotencyKey::from_static("ghost");
    let result = journal.get(&key).expect("get");
    assert!(result.is_none());
}

#[test]
fn test_update_existing() {
    let mut journal = InMemoryJournal::new();
    let entry = test_entry("op-1");
    let key = entry.key.clone();
    journal.append(entry).expect("append");

    let updated = journal
        .get(&key)
        .expect("get")
        .expect("some")
        .transition_to(OperationStatus::InProgress)
        .expect("transition");
    journal.update(updated).expect("update");

    let retrieved = journal.get(&key).expect("get").expect("some");
    assert_eq!(retrieved.status, OperationStatus::InProgress);
}

#[test]
fn test_update_nonexistent_errors() {
    let mut journal = InMemoryJournal::new();
    let entry = test_entry("missing");
    let result = journal.update(entry);
    assert!(result.is_err());
}

#[test]
fn test_get_incomplete_filters_terminal() {
    let mut journal = InMemoryJournal::new();

    let intended = test_entry("intended");
    let key_in_progress = IdempotencyKey::from_static("in-progress");
    let in_progress = JournalEntry::new_intended(key_in_progress.clone(), obj(&[]))
        .transition_to(OperationStatus::InProgress)
        .expect("transition");
    let key_completed = IdempotencyKey::from_static("completed");
    let completed = JournalEntry::new_intended(key_completed.clone(), obj(&[]))
        .transition_to(OperationStatus::InProgress)
        .and_then(|e| e.transition_to(OperationStatus::Completed))
        .expect("complete");

    journal.append(intended).expect("append");
    journal.append(in_progress).expect("append");
    journal.append(completed).expect("append");

    let incomplete = journal.get_incomplete().expect("get_incomplete");
    assert_eq!(incomplete.len(), 2);
}

#[test]
fn test_remove_existing() {
    let mut journal = InMemoryJournal::new();
    let entry = test_entry("rm-me");
    let key = entry.key.clone();
    journal.append(entry).expect("append");

    journal.remove(&key).expect("remove");
    assert!(journal.get(&key).expect("get").is_none());
}

#[test]
fn test_remove_nonexistent_errors() {
    let mut journal = InMemoryJournal::new();
    let key = IdempotencyKey::from_static("ghost");
    let result = journal.remove(&key);
    assert!(result.is_err());
}

#[test]
fn test_len_tracks_entries() {
    let mut journal = InMemoryJournal::new();
    assert_eq!(journal.len().expect("len"), 0);
    assert!(journal.is_empty().expect("is_empty"));

    journal.append(test_entry("a")).expect("append");
    journal.append(test_entry("b")).expect("append");
    assert_eq!(journal.len().expect("len"), 2);
}

#[test]
fn test_get_incomplete_empty_journal() {
    let journal = InMemoryJournal::new();
    let incomplete = journal.get_incomplete().expect("get_incomplete");
    assert!(incomplete.is_empty());
}

#[test]
fn test_crash_recovery_scenario() {
    let mut journal = InMemoryJournal::new();

    let entry1 = test_entry("completed-before-crash");
    let key1 = entry1.key.clone();
    let completed = entry1
        .transition_to(OperationStatus::InProgress)
        .and_then(|e| e.transition_to(OperationStatus::Completed))
        .expect("complete");
    journal.append(completed).expect("append");

    let entry2 = test_entry("in-progress-when-crashed");
    let key2 = entry2.key.clone();
    let in_progress = entry2
        .transition_to(OperationStatus::InProgress)
        .expect("start");
    journal.append(in_progress).expect("append");

    let entry3 = test_entry("intended-never-started");
    journal.append(entry3).expect("append");

    let incomplete = journal.get_incomplete().expect("get_incomplete");
    assert_eq!(incomplete.len(), 2);

    let key_incomplete2 = IdempotencyKey::from_static("intended-never-started");
    let incomplete_keys: Vec<&IdempotencyKey> = incomplete.iter().map(|e| &e.key).collect();
    assert!(incomplete_keys.iter().any(|k| **k == key2));
    assert!(incomplete_keys.iter().any(|k| **k == key_incomplete2));
    assert!(!incomplete_keys.iter().any(|k| **k == key1));
}

#[test]
fn test_default_is_empty() {
    let journal = InMemoryJournal::default();
    assert!(journal.is_empty().expect("is_empty"));
}

// --- Receipt store ---

#[test]
fn test_store_and_retrieve() {
    let mut store = InMemoryReceiptStore::new();
    let key = IdempotencyKey::from_static("r-1");
    store.store(Receipt::new(key.clone())).expect("store");
    let retrieved = store.get(&key).expect("get");
    assert!(retrieved.is_some());
    assert_eq!(retrieved.as_ref().map(|r| &r.key), Some(&key));
}

#[test]
fn test_store_duplicate_rejected() {
    let mut store = InMemoryReceiptStore::new();
    let key = IdempotencyKey::from_static("dup");
    store.store(Receipt::new(key.clone())).expect("store");
    let result = store.store(Receipt::new(key));
    assert!(result.is_err());
}

#[test]
fn test_store_remove_and_len() {
    let mut store = InMemoryReceiptStore::new();
    assert!(store.is_empty().expect("is_empty"));
    let key = IdempotencyKey::from_static("a");
    store.store(Receipt::new(key.clone())).expect("store");
    store
        .store(Receipt::with_hash(
            IdempotencyKey::from_static("b"),
            "sha256:abc".to_string(),
        ))
        .expect("store");
    assert_eq!(store.len().expect("len"), 2);
    assert!(store.contains(&key).expect("contains"));
    store.remove(&key).expect("remove");
    assert!(!store.contains(&key).expect("contains"));
    assert!(store.remove(&key).is_err());
    let b = store
        .get(&IdempotencyKey::from_static("b"))
        .expect("get")
        .expect("some");
    assert_eq!(b.result_hash.as_deref(), Some("sha256:abc"));
}

// --- Deduplicator ---

#[test]
fn test_check_unknown_key_returns_execute() {
    let dedup = OperationDeduplicator::new(InMemoryReceiptStore::new());
    let key = IdempotencyKey::from_static("new-op");
    let decision = dedup.check(&key).expect("check");
    assert_eq!(decision, DedupDecision::Execute);
}

#[test]
fn test_check_completed_key_returns_already_completed() {
    let mut store = InMemoryReceiptStore::new();
    let key = IdempotencyKey::from_static("done-op");
    store.store(Receipt::new(key.clone())).expect("store");

    let dedup = OperationDeduplicator::new(store);
    let decision = dedup.check(&key).expect("check");
    match decision {
        DedupDecision::AlreadyCompleted { receipt } => {
            assert_eq!(receipt.key, key);
        }
        other => panic!("Expected AlreadyCompleted, got {other:?}"),
    }
}

#[test]
fn test_record_completion_with_hash() {
    let mut dedup = OperationDeduplicator::new(InMemoryReceiptStore::new());
    let key = IdempotencyKey::from_static("hashed-op");

    dedup
        .record_completion_with_hash(key.clone(), "sha256:abc".to_string())
        .expect("record");

    match dedup.check(&key).expect("check") {
        DedupDecision::AlreadyCompleted { receipt } => {
            assert_eq!(receipt.result_hash.as_deref(), Some("sha256:abc"));
        }
        other => panic!("Expected AlreadyCompleted, got {other:?}"),
    }
}

#[test]
fn test_duplicate_record_rejected() {
    let mut dedup = OperationDeduplicator::new(InMemoryReceiptStore::new());
    let key = IdempotencyKey::from_static("dup");
    dedup.record_completion(key.clone()).expect("record 1");
    let result = dedup.record_completion(key);
    assert!(result.is_err());
}

#[test]
fn test_different_keys_independent() {
    let mut dedup = OperationDeduplicator::new(InMemoryReceiptStore::new());
    dedup
        .record_completion(IdempotencyKey::from_static("op-1"))
        .expect("record 1");

    let decision1 = dedup
        .check(&IdempotencyKey::from_static("op-1"))
        .expect("check 1");
    let decision2 = dedup
        .check(&IdempotencyKey::from_static("op-2"))
        .expect("check 2");

    assert!(matches!(decision1, DedupDecision::AlreadyCompleted { .. }));
    assert_eq!(decision2, DedupDecision::Execute);
}

// --- Executor ---

#[test]
fn test_execute_success() {
    let mut executor = InMemoryExactlyOnceExecutor::new();
    let key = IdempotencyKey::from_static("op-1");

    let result = execute(&mut executor, key.clone(), obj(&[("cmd", "merge")]), success_op)
        .expect("execute");

    assert_eq!(result.key, key);
    assert!(!result.was_deduplicated);
    assert!(result.output.is_some());
}

#[test]
fn test_execute_deduplicates_duplicate_key() {
    let mut executor = InMemoryExactlyOnceExecutor::new();
    let key = IdempotencyKey::from_static("op-dup");

    let result1 = execute(&mut executor, key.clone(), obj(&[]), success_op).expect("first");
    assert!(!result1.was_deduplicated);

    let result2 = execute(&mut executor, key.clone(), obj(&[]), success_op).expect("second");
    assert!(result2.was_deduplicated);
    assert!(result2.output.is_none());
}

#[test]
fn test_execute_failure_records_in_journal() {
    let mut executor = InMemoryExactlyOnceExecutor::new();
    let key = IdempotencyKey::from_static("op-fail");

    let result = execute(&mut executor, key.clone(), obj(&[]), fail_op);
    assert!(result.is_err());

    let entry = executor
        .journal_entry(&key)
        .expect("get entry")
        .expect("some");
    assert_eq!(entry.status, OperationStatus::Failed);
    assert!(entry.error.is_some());
}

#[test]
fn test_recover_incomplete_after_success() {
    let mut executor = InMemoryExactlyOnceExecutor::new();
    execute(
        &mut executor,
        IdempotencyKey::from_static("completed"),
        obj(&[]),
        success_op,
    )
    .expect("execute");

    let incomplete = executor.recover_incomplete().expect("recover");
    assert!(incomplete.is_empty());
}

#[test]
fn test_recover_incomplete_after_failure() {
    let mut executor = InMemoryExactlyOnceExecutor::new();
    let _ = execute(
        &mut executor,
        IdempotencyKey::from_static("failed"),
        obj(&[]),
        fail_op,
    );

    let incomplete = executor.recover_incomplete().expect("recover");
    assert!(incomplete.is_empty());
}

#[test]
fn test_failed_operation_runs_again() {
    let mut executor = InMemoryExactlyOnceExecutor::new();
    let key = IdempotencyKey::from_static("k");

    let first = execute(&mut executor, key.clone(), obj(&[]), fail_op);
    assert!(matches!(first, Err(ExactlyOnceError::OperationFailed(_))));

    let second = execute(&mut executor, key.clone(), obj(&[]), success_op).expect("rerun");
    assert_eq!(second.key, key);
    assert!(!second.was_deduplicated);
    assert_eq!(second.output, Some(obj(&[("status", "ok")])));
    assert!(executor.recover_incomplete().expect("recover").is_empty());

    let entry = executor.journal_entry(&key).expect("get").expect("some");
    assert_eq!(entry.status, OperationStatus::Completed);
    assert!(entry.error.is_none());

    let third = execute(&mut executor, key.clone(), obj(&[]), success_op).expect("third");
    assert!(third.was_deduplicated);
}

#[test]
fn test_rerun_after_failure_is_handed_the_new_payload() {
    let mut executor = InMemoryExactlyOnceExecutor::new();
    let key = IdempotencyKey::from_static("again");
    let _ = execute(&mut executor, key.clone(), obj(&[("try", "1")]), fail_op);
    match executor.begin(key.clone(), obj(&[("try", "2")])).expect("begin") {
        ExecutionStep::Run(p) => assert_eq!(p, obj(&[("try", "2")])),
        ExecutionStep::Deduplicated(_) => panic!("a failed run has no receipt"),
    }
    let incomplete = executor.recover_incomplete().expect("recover");
    assert_eq!(incomplete.len(), 1);
    assert_eq!(incomplete[0].status, OperationStatus::InProgress);
    assert_eq!(incomplete[0].payload, obj(&[("try", "2")]));
}

#[test]
fn test_recover_incomplete_between_begin_and_finish() {
    let mut executor = InMemoryExactlyOnceExecutor::new();
    let key = IdempotencyKey::from_static("crashed");
    match executor.begin(key.clone(), obj(&[])).expect("begin") {
        ExecutionStep::Run(_) => {}
        ExecutionStep::Deduplicated(_) => panic!("nothing ran yet"),
    }
    let incomplete = executor.recover_incomplete().expect("recover");
    assert_eq!(incomplete.len(), 1);
    assert_eq!(incomplete[0].key, key);
    assert_eq!(incomplete[0].status, OperationStatus::InProgress);
}

#[test]
fn test_multiple_operations_independent() {
    let mut executor = InMemoryExactlyOnceExecutor::new();

    let r1 = execute(
        &mut executor,
        IdempotencyKey::from_static("op-a"),
        obj(&[]),
        success_op,
    )
    .expect("op-a");
    let r2 = execute(
        &mut executor,
        IdempotencyKey::from_static("op-b"),
        obj(&[]),
        success_op,
    )
    .expect("op-b");

    assert!(!r1.was_deduplicated);
    assert!(!r2.was_deduplicated);
    assert_eq!(r1.key, IdempotencyKey::from_static("op-a"));
    assert_eq!(r2.key, IdempotencyKey::from_static("op-b"));
}

#[test]
fn test_execution_result_output_contains_value() {
    let mut executor = InMemoryExactlyOnceExecutor::new();
    let result = execute(
        &mut executor,
        IdempotencyKey::from_static("with-output"),
        obj(&[]),
        success_op,
    )
    .expect("execute");

    let output = result.output.expect("output");
    assert_eq!(output["status"], "ok");
}

#[test]
fn test_default_executor_works() {
    let mut executor = InMemoryExactlyOnceExecutor::default();
    let result = execute(
        &mut executor,
        IdempotencyKey::from_static("default"),
        obj(&[]),
        success_op,
    )
    .expect("execute");
    assert!(!result.was_deduplicated);
}

#[test]
fn journal_test_remove_existing() {
    let mut journal = InMemoryJournal::new();
    let entry = test_entry("rm-me");
    let key = entry.key.clone();
    journal.append(entry).expect("append");
    journal.remove(&key).expect("remove");
    assert!(journal.get(&key).expect("get").is_none());
}

#[test]
fn journal_test_remove_nonexistent_errors() {
    let mut journal = InMemoryJournal::new();
    let key = IdempotencyKey::from_static("ghost");
    let result = journal.remove(&key);
    assert!(result.is_err());
}

#[test]
fn journal_test_default_is_empty() {
    let journal = InMemoryJournal::default();
    assert!(journal.is_empty().expect("is_empty"));
}

#[test]
fn test_contains_existing() {
    let mut store = InMemoryReceiptStore::new();
    let key = IdempotencyKey::from_static("op-1");
    store.store(Receipt::new(key.clone())).expect("store");
    assert!(store.contains(&key).expect("contains"));
}

#[test]
fn test_contains_nonexistent() {
    let store = InMemoryReceiptStore::new();
    let key = IdempotencyKey::from_static("never-stored");
    assert!(!store.contains(&key).expect("contains"));
}

#[test]
fn store_test_remove_existing() {
    let mut store = InMemoryReceiptStore::new();
    let key = IdempotencyKey::from_static("rm-me");
    store.store(Receipt::new(key.clone())).expect("store");
    store.remove(&key).expect("remove");
    assert!(!store.contains(&key).expect("contains"));
}

#[test]
fn store_test_remove_nonexistent_errors() {
    let mut store = InMemoryReceiptStore::new();
    let key = IdempotencyKey::from_static("ghost");
    let result = store.remove(&key);
    assert!(result.is_err());
}

#[test]
fn test_len_tracks_receipts() {
    let mut store = InMemoryReceiptStore::new();
    assert_eq!(store.len().expect("len"), 0);
    assert!(store.is_empty().expect("is_empty"));
    store.store(Receipt::new(IdempotencyKey::from_static("a"))).expect("store a");
    store.store(Receipt::new(IdempotencyKey::from_static("b"))).expect("store b");
    assert_eq!(store.len().expect("len"), 2);
    assert!(!store.is_empty().expect("is_empty"));
}

#[test]
fn test_get_nonexistent_returns_none() {
    let store = InMemoryReceiptStore::new();
    let result = store.get(&IdempotencyKey::from_static("nope")).expect("get");
    assert!(result.is_none());
}

#[test]
fn test_store_receipt_preserves_hash() {
    let mut store = InMemoryReceiptStore::new();
    let key = IdempotencyKey::from_static("hashed");
    let receipt = Receipt::with_hash(key.clone(), "sha256:abc".to_string());
    store.store(receipt).expect("store");
    let retrieved = store.get(&key).expect("get").expect("some");
    assert_eq!(retrieved.result_hash.as_deref(), Some("sha256:abc"));
}

#[test]
fn store_test_default_is_empty() {
    let store = InMemoryReceiptStore::default();
    assert!(store.is_empty().expect("is_empty"));
}

#[test]
fn test_record_completion_then_check_blocks() {
    let store = InMemoryReceiptStore::new();
    let mut dedup = OperationDeduplicator::new(store);
    let key = IdempotencyKey::from_static("op-1");
    dedup.record_completion(key.clone()).expect("record");
    let decision = dedup.check(&key).expect("check");
    assert!(matches!(decision, DedupDecision::AlreadyCompleted { .. }), "Expected AlreadyCompleted");
}
