//! Exactly-once execution: record the intent to run an operation, skip it
//! when it already completed, run it, and record a receipt on success. An
//! operation that failed, or never finished, has no receipt and runs again.
//!
//! Running the operation itself is the caller's part: `begin` says whether
//! to run it, and `finish` records what came of it.
use vstd::prelude::*;

pub mod dedup;
pub mod journal;
pub mod store;
pub mod types;

use dedup::{dedup_message, DedupDecision, DedupError, OperationDeduplicator};
use journal::{first_entry_index, incomplete_entries, lemma_first_entry_index, InMemoryJournal, JournalError};
use store::{
    has_receipt, receipt_for, receipt_store_message, InMemoryReceiptStore, ReceiptStoreError,
};
use types::{
    journal_transition_outcome, status_is_terminal, transition_message, IdempotencyKey, JournalEntry,
    JournalTransitionError, OperationStatus, Receipt,
};
use crate::clock::now_millis;
use crate::json::copy_value;

verus! {

/// Errors of exactly-once execution.
#[derive(Debug, Clone)]
pub enum ExactlyOnceError {
    Dedup(DedupError),
    Journal(JournalError),
    JournalTransition(JournalTransitionError),
    ReceiptStore(ReceiptStoreError),
    AlreadyCompleted(String),
    OperationFailed(String),
}

/// The message of a journal error.
pub open spec fn journal_message(e: JournalError) -> Seq<char> {
    match e {
        JournalError::NotFound(m) => "Entry not found: "@ + m@,
        JournalError::Internal(m) => "Journal error: "@ + m@,
        JournalError::Transition(t) => "Transition error: "@ + transition_message(t),
    }
}

/// The message of an exactly-once error.
pub open spec fn exactly_once_message(e: ExactlyOnceError) -> Seq<char> {
    match e {
        ExactlyOnceError::Dedup(d) => "Dedup check failed: "@ + dedup_message(d),
        ExactlyOnceError::Journal(j) => "Journal error: "@ + journal_message(j),
        ExactlyOnceError::JournalTransition(t) => "Journal transition error: "@ + transition_message(t),
        ExactlyOnceError::ReceiptStore(s) => "Receipt store error: "@ + receipt_store_message(s),
        ExactlyOnceError::AlreadyCompleted(m) => "Operation already completed: "@ + m@,
        ExactlyOnceError::OperationFailed(m) => "Operation failed: "@ + m@,
    }
}

impl ExactlyOnceError {
    /// The message a user sees for this error.
    pub fn to_string(&self) -> (s: String)
        ensures
            s@ == exactly_once_message(*self),
    {
        let (mut s, m) = match self {
            ExactlyOnceError::Dedup(d) => (String::from_str("Dedup check failed: "), d.to_string()),
            ExactlyOnceError::Journal(j) => (String::from_str("Journal error: "), j.to_string()),
            ExactlyOnceError::JournalTransition(t) => (
                String::from_str("Journal transition error: "),
                t.to_string(),
            ),
            ExactlyOnceError::ReceiptStore(r) => (String::from_str("Receipt store error: "), r.to_string()),
            ExactlyOnceError::AlreadyCompleted(m) => (
                String::from_str("Operation already completed: "),
                m.clone(),
            ),
            ExactlyOnceError::OperationFailed(m) => (String::from_str("Operation failed: "), m.clone()),
        };
        s.append(m.as_str());
        s
    }
}

pub type ExactlyOnceResult<T> = Result<T, ExactlyOnceError>;

/// The result of an execution.
#[derive(Debug)]
pub struct ExecutionResult {
    pub key: IdempotencyKey,
    pub was_deduplicated: bool,
    pub output: Option<serde_json::Value>,
}

/// What `begin` asks of the caller.
#[derive(Debug)]
pub enum ExecutionStep {
    /// The operation already completed; this is the result to report.
    Deduplicated(ExecutionResult),
    /// Run the operation on this payload, then call `finish`.
    Run(serde_json::Value),
}

/// The receipts and journal entries of an executor.
pub struct ExecutorState {
    pub receipts: Seq<Receipt>,
    pub entries: Seq<JournalEntry>,
}

/// The journal entry of an attempt at the operation for `key` that starts
/// at `now`: in progress, with no error.
pub open spec fn started_entry(key: IdempotencyKey, payload: serde_json::Value, now: i64) -> JournalEntry {
    JournalEntry { key, status: OperationStatus::InProgress, payload, created_at: now, updated_at: now, error: None }
}

/// The journal once `e` is recorded for its key: it replaces the entry of
/// an earlier attempt for that key (one that failed or never finished),
/// or is added at the end when there is none.
pub open spec fn journal_with(entries: Seq<JournalEntry>, e: JournalEntry) -> Seq<JournalEntry> {
    match first_entry_index(entries, e.key@) {
        Some(i) => entries.update(i, e),
        None => entries.push(e),
    }
}

/// What `begin_at(key, payload, now)` does: from state `s` it reaches `s2`
/// and returns `r`. With a receipt for the key (the operation completed),
/// nothing changes and the deduplicated result is returned. Otherwise the
/// operation is to run: the journal records the attempt as in progress, in
/// place of an earlier attempt's entry for the key, and the payload is
/// handed back to run.
pub open spec fn begin_post(
    s: ExecutorState,
    key: IdempotencyKey,
    payload: serde_json::Value,
    now: i64,
    s2: ExecutorState,
    r: ExactlyOnceResult<ExecutionStep>,
) -> bool {
    if has_receipt(s.receipts, key@) {
        &&& s2 == s
        &&& r == Ok::<ExecutionStep, ExactlyOnceError>(
            ExecutionStep::Deduplicated(
                ExecutionResult {
                    key: receipt_for(s.receipts, key@).key,
                    was_deduplicated: true,
                    output: None,
                },
            ),
        )
    } else {
        &&& s2.receipts == s.receipts
        &&& s2.entries == journal_with(s.entries, started_entry(key, payload, now))
        &&& r == Ok::<ExecutionStep, ExactlyOnceError>(ExecutionStep::Run(payload))
    }
}

/// What `finish_at(key, outcome, now)` does: from state `s` it reaches `s2`
/// and returns `r`. The first journal entry for the key must exist and be in
/// progress. A successful outcome completes that entry and stores a receipt
/// (refused when one exists); a failed outcome marks the entry failed with
/// the error's message and reports the failure.
pub open spec fn finish_post(
    s: ExecutorState,
    key: IdempotencyKey,
    outcome: ExactlyOnceResult<serde_json::Value>,
    now: i64,
    s2: ExecutorState,
    r: ExactlyOnceResult<ExecutionResult>,
) -> bool {
    match first_entry_index(s.entries, key@) {
        None => s2 == s && (r matches Err(ExactlyOnceError::Journal(JournalError::NotFound(m)))
            && m@ == key@),
        Some(i) => {
            let entry = s.entries[i];
            let target = if outcome is Ok {
                OperationStatus::Completed
            } else {
                OperationStatus::Failed
            };
            match journal_transition_outcome(entry.status, target) {
                Some(e) => s2 == s && r == Err::<ExecutionResult, ExactlyOnceError>(
                    ExactlyOnceError::JournalTransition(e),
                ),
                None => match outcome {
                    Ok(output) => {
                        let entries = s.entries.update(
                            i,
                            JournalEntry {
                                status: OperationStatus::Completed,
                                updated_at: now,
                                error: None,
                                ..entry
                            },
                        );
                        &&& s2.entries == entries
                        &&& if has_receipt(s.receipts, key@) {
                            s2.receipts == s.receipts && (r matches Err(
                                ExactlyOnceError::Dedup(DedupError::Store(ReceiptStoreError::AlreadyExists(m))),
                            ) && m@ == key@)
                        } else {
                            s2.receipts == s.receipts.push(
                                Receipt { key, completed_at: now, result_hash: None },
                            ) && r == Ok::<ExecutionResult, ExactlyOnceError>(
                                ExecutionResult { key, was_deduplicated: false, output: Some(output) },
                            )
                        }
                    },
                    Err(err) => {
                        &&& s2.receipts == s.receipts
                        &&& s2.entries.len() == s.entries.len()
                        &&& s2.entries[i].error matches Some(msg) && msg@ == exactly_once_message(err)
                        &&& s2.entries == s.entries.update(
                            i,
                            JournalEntry {
                                status: OperationStatus::Failed,
                                updated_at: now,
                                error: s2.entries[i].error,
                                ..entry
                            },
                        )
                        &&& r matches Err(ExactlyOnceError::OperationFailed(m)) && m@ == exactly_once_message(err)
                    },
                },
            }
        },
    }
}

/// Once an operation for a key has run successfully (it was begun, run and
/// finished with an output), asking to begin it again changes nothing and
/// reports the earlier completion: the operation does not run twice.
pub proof fn lemma_completed_operation_is_deduplicated(
    s: ExecutorState,
    key: IdempotencyKey,
    payload: serde_json::Value,
    output: serde_json::Value,
    again: serde_json::Value,
    t1: i64,
    t2: i64,
    t3: i64,
    s1: ExecutorState,
    r1: ExactlyOnceResult<ExecutionStep>,
    s2: ExecutorState,
    r2: ExactlyOnceResult<ExecutionResult>,
    s3: ExecutorState,
    r3: ExactlyOnceResult<ExecutionStep>,
)
    requires
        begin_post(s, key, payload, t1, s1, r1),
        r1 is Ok,
        finish_post(s1, key, Ok(output), t2, s2, r2),
        r2 is Ok,
        begin_post(s2, key, again, t3, s3, r3),
    ensures
        s3 == s2,
        r3 matches Ok(ExecutionStep::Deduplicated(res)) && res.was_deduplicated && res.output is None
            && res.key@ == key@,
{
    lemma_finish_success_leaves_receipt(s1, key, output, t2, s2, r2);
    let w = choose|i: int| 0 <= i < s2.receipts.len() && (#[trigger] s2.receipts[i]).key@ == key@;
}

/// A successful finish leaves a receipt for the key, and receipts are only
/// ever added.
pub proof fn lemma_finish_success_leaves_receipt(
    s: ExecutorState,
    key: IdempotencyKey,
    output: serde_json::Value,
    now: i64,
    s2: ExecutorState,
    r: ExactlyOnceResult<ExecutionResult>,
)
    requires
        finish_post(s, key, Ok(output), now, s2, r),
        r is Ok,
    ensures
        has_receipt(s2.receipts, key@),
        s2.receipts.len() == s.receipts.len() + 1,
        s2.receipts.subrange(0, s.receipts.len() as int) == s.receipts,
{
    assert(s2.receipts[s.receipts.len() as int].key@ == key@);
    assert(s2.receipts.subrange(0, s.receipts.len() as int) =~= s.receipts);
}

/// A failed operation never leaves a receipt: finishing with an error keeps
/// the receipts as they were, so the operation may be looked at again.
pub proof fn lemma_failed_operation_leaves_no_receipt(
    s: ExecutorState,
    key: IdempotencyKey,
    err: ExactlyOnceError,
    now: i64,
    s2: ExecutorState,
    r: ExactlyOnceResult<ExecutionResult>,
)
    requires
        finish_post(s, key, Err(err), now, s2, r),
    ensures
        s2.receipts == s.receipts,
        r is Err,
{
}

/// An operation whose run failed is run again: after it was begun (with no
/// receipt for its key), run, and finished with an error, asking to begin it
/// again hands the new payload back to run.
pub proof fn lemma_failed_operation_runs_again(
    s: ExecutorState,
    key: IdempotencyKey,
    payload: serde_json::Value,
    err: ExactlyOnceError,
    again: serde_json::Value,
    t1: i64,
    t2: i64,
    t3: i64,
    s1: ExecutorState,
    r1: ExactlyOnceResult<ExecutionStep>,
    s2: ExecutorState,
    r2: ExactlyOnceResult<ExecutionResult>,
    s3: ExecutorState,
    r3: ExactlyOnceResult<ExecutionStep>,
)
    requires
        !has_receipt(s.receipts, key@),
        begin_post(s, key, payload, t1, s1, r1),
        finish_post(s1, key, Err(err), t2, s2, r2),
        begin_post(s2, key, again, t3, s3, r3),
    ensures
        r1 == Ok::<ExecutionStep, ExactlyOnceError>(ExecutionStep::Run(payload)),
        r3 == Ok::<ExecutionStep, ExactlyOnceError>(ExecutionStep::Run(again)),
        s3.receipts == s.receipts,
{
}

/// No entry of `entries` is left unfinished exactly when every entry has
/// completed or failed.
proof fn lemma_incomplete_empty(entries: Seq<JournalEntry>)
    ensures
        incomplete_entries(entries).len() == 0 <==> forall|i: int|
            0 <= i < entries.len() ==> status_is_terminal((#[trigger] entries[i]).status),
    decreases entries.len(),
{
    if entries.len() > 0 {
        lemma_incomplete_empty(entries.drop_last());
        let d = entries.drop_last();
        if forall|i: int| 0 <= i < entries.len() ==> status_is_terminal((#[trigger] entries[i]).status) {
            assert forall|i: int| 0 <= i < d.len() implies status_is_terminal((#[trigger] d[i]).status) by {
                assert(d[i] == entries[i]);
            }
            assert(status_is_terminal(entries[entries.len() - 1].status));
        } else {
            let i = choose|i: int| 0 <= i < entries.len() && !status_is_terminal((#[trigger] entries[i]).status);
            if i < d.len() {
                assert(d[i] == entries[i]);
            }
        }
    }
}

/// Recording an entry puts it where the first entry for its key now is.
proof fn lemma_journal_with_first(entries: Seq<JournalEntry>, e: JournalEntry)
    ensures
        first_entry_index(journal_with(entries, e), e.key@) matches Some(i) && 0 <= i < journal_with(
            entries,
            e,
        ).len() && journal_with(entries, e)[i] == e && journal_with(entries, e).len() >= entries.len()
            && forall|j: int| 0 <= j < entries.len() && j != i ==> journal_with(entries, e)[j] == entries[j],
{
    lemma_first_entry_index(entries, e.key@);
    let w = journal_with(entries, e);
    lemma_first_entry_index(w, e.key@);
    match first_entry_index(entries, e.key@) {
        Some(i) => {
            assert(w[i] == e);
            match first_entry_index(w, e.key@) {
                Some(k) => {
                    if k < i {
                        assert(w[k] == entries[k]);
                    } else if k > i {
                        assert(w[i].key@ == e.key@);
                    }
                },
                None => {
                    assert(w[i].key@ == e.key@);
                },
            }
        },
        None => {
            let n = entries.len() as int;
            assert(w[n] == e);
            match first_entry_index(w, e.key@) {
                Some(k) => {
                    if k < n {
                        assert(w[k] == entries[k]);
                    }
                },
                None => {
                    assert(w[n].key@ == e.key@);
                },
            }
        },
    }
}

/// Finishing an operation whose entry is in progress finishes that entry
/// and leaves every other entry as it was.
proof fn lemma_finish_in_progress(
    s: ExecutorState,
    key: IdempotencyKey,
    outcome: ExactlyOnceResult<serde_json::Value>,
    now: i64,
    s2: ExecutorState,
    r: ExactlyOnceResult<ExecutionResult>,
    i: int,
)
    requires
        first_entry_index(s.entries, key@) == Some(i),
        0 <= i < s.entries.len(),
        s.entries[i].status == OperationStatus::InProgress,
        finish_post(s, key, outcome, now, s2, r),
    ensures
        s2.entries.len() == s.entries.len(),
        status_is_terminal(s2.entries[i].status),
        forall|j: int| 0 <= j < s.entries.len() && j != i ==> s2.entries[j] == s.entries[j],
{
}

/// Recording an in-progress entry in a journal where every entry had
/// finished leaves that entry, the first for its key, as the only one in
/// progress.
proof fn lemma_started_is_only_open(entries: Seq<JournalEntry>, e: JournalEntry) -> (i: int)
    requires
        forall|j: int| 0 <= j < entries.len() ==> status_is_terminal((#[trigger] entries[j]).status),
        e.status == OperationStatus::InProgress,
    ensures
        first_entry_index(journal_with(entries, e), e.key@) == Some(i),
        0 <= i < journal_with(entries, e).len(),
        journal_with(entries, e)[i] == e,
        forall|j: int|
            0 <= j < journal_with(entries, e).len() && j != i ==> status_is_terminal(
                (#[trigger] journal_with(entries, e)[j]).status,
            ),
{
    lemma_journal_with_first(entries, e);
    lemma_first_entry_index(entries, e.key@);
    let w = journal_with(entries, e);
    let i = first_entry_index(w, e.key@)->0;
    let n = entries.len() as int;
    if first_entry_index(entries, e.key@) is None {
        assert(w == entries.push(e));
        if i < n {
            assert(w[i] == entries[i]);
        }
        assert(i == n);
    } else {
        assert(w.len() == n);
    }
    assert forall|j: int| 0 <= j < w.len() && j != i implies status_is_terminal((#[trigger] w[j]).status) by {
        assert(j < n);
        assert(w[j] == entries[j]);
    }
    i
}

/// When every entry but one had finished and that one is finished while the
/// rest stay as they were, every entry has finished.
proof fn lemma_all_finished_after(before: Seq<JournalEntry>, after: Seq<JournalEntry>, i: int)
    requires
        0 <= i < before.len(),
        after.len() == before.len(),
        status_is_terminal(after[i].status),
        forall|j: int| 0 <= j < before.len() && j != i ==> status_is_terminal((#[trigger] before[j]).status),
        forall|j: int| 0 <= j < before.len() && j != i ==> after[j] == before[j],
    ensures
        forall|j: int| 0 <= j < after.len() ==> status_is_terminal((#[trigger] after[j]).status),
{
    assert forall|j: int| 0 <= j < after.len() implies status_is_terminal((#[trigger] after[j]).status) by {
        if j != i {
            assert(after[j] == before[j]);
            assert(status_is_terminal(before[j].status));
        }
    }
}

/// A run that was begun and finished leaves nothing unfinished behind: when
/// every journal entry had finished before the operation was begun (with no
/// receipt for its key), every entry has finished once it is finished,
/// whatever its outcome.
pub proof fn lemma_finished_run_leaves_nothing_incomplete(
    s: ExecutorState,
    key: IdempotencyKey,
    payload: serde_json::Value,
    outcome: ExactlyOnceResult<serde_json::Value>,
    t1: i64,
    t2: i64,
    s1: ExecutorState,
    r1: ExactlyOnceResult<ExecutionStep>,
    s2: ExecutorState,
    r2: ExactlyOnceResult<ExecutionResult>,
)
    requires
        incomplete_entries(s.entries).len() == 0,
        !has_receipt(s.receipts, key@),
        begin_post(s, key, payload, t1, s1, r1),
        finish_post(s1, key, outcome, t2, s2, r2),
    ensures
        incomplete_entries(s2.entries).len() == 0,
{
    lemma_incomplete_empty(s.entries);
    assert(s1.entries == journal_with(s.entries, started_entry(key, payload, t1)));
    let i = lemma_started_is_only_open(s.entries, started_entry(key, payload, t1));
    lemma_finish_in_progress(s1, key, outcome, t2, s2, r2, i);
    lemma_all_finished_after(s1.entries, s2.entries, i);
    lemma_incomplete_empty(s2.entries);
}

/// Every call that is carried to its end keeps the journal free of
/// unfinished entries: it begins, and when told to run, the operation's
/// outcome is finished; a deduplicated call changes nothing. So, starting
/// from an empty journal, nothing is left to recover after any number of
/// such calls.
pub proof fn lemma_runs_to_end_leave_nothing_incomplete(
    s: ExecutorState,
    key: IdempotencyKey,
    payload: serde_json::Value,
    outcome: ExactlyOnceResult<serde_json::Value>,
    t1: i64,
    t2: i64,
    s1: ExecutorState,
    r1: ExactlyOnceResult<ExecutionStep>,
    s2: ExecutorState,
    r2: ExactlyOnceResult<ExecutionResult>,
)
    requires
        incomplete_entries(s.entries).len() == 0,
        begin_post(s, key, payload, t1, s1, r1),
        r1 matches Ok(ExecutionStep::Run(_)) ==> finish_post(s1, key, outcome, t2, s2, r2),
        !(r1 matches Ok(ExecutionStep::Run(_))) ==> s2 == s1,
    ensures
        incomplete_entries(s2.entries).len() == 0,
{
    if !has_receipt(s.receipts, key@) {
        lemma_finished_run_leaves_nothing_incomplete(s, key, payload, outcome, t1, t2, s1, r1, s2, r2);
    }
}

/// Beginning never touches the receipts.
pub proof fn lemma_begin_keeps_receipts(
    s: ExecutorState,
    key: IdempotencyKey,
    payload: serde_json::Value,
    now: i64,
    s2: ExecutorState,
    r: ExactlyOnceResult<ExecutionStep>,
)
    requires
        begin_post(s, key, payload, now, s2, r),
    ensures
        s2.receipts == s.receipts,
{
}

/// Runs operations at most once per idempotency key.
pub struct ExactlyOnceExecutor {
    deduplicator: OperationDeduplicator,
    journal: InMemoryJournal,
}

impl ExactlyOnceExecutor {
    /// The receipts and the journal.
    pub closed spec fn state(&self) -> ExecutorState {
        ExecutorState { receipts: self.deduplicator.receipts(), entries: self.journal.entries() }
    }

    pub fn new(receipt_store: InMemoryReceiptStore, journal: InMemoryJournal) -> (e: Self)
        ensures
            e.state() == (ExecutorState { receipts: receipt_store.receipts(), entries: journal.entries() }),
    {
        ExactlyOnceExecutor { deduplicator: OperationDeduplicator::new(receipt_store), journal }
    }

    /// Decide whether to run the operation for `key` and, if so, journal the
    /// intent and mark it in progress, at time `now`.
    pub fn begin_at(&mut self, key: IdempotencyKey, payload: serde_json::Value, now: i64) -> (r: ExactlyOnceResult<ExecutionStep>)
        ensures
            begin_post(old(self).state(), key, payload, now, final(self).state(), r),
    {
        let decision = match self.deduplicator.check(&key) {
            Ok(d) => d,
            Err(e) => return Err(ExactlyOnceError::Dedup(e)),
        };
        match decision {
            DedupDecision::AlreadyCompleted { receipt } => {
                return Ok(
                    ExecutionStep::Deduplicated(
                        ExecutionResult { key: receipt.key, was_deduplicated: true, output: None },
                    ),
                );
            },
            DedupDecision::Execute => {},
            DedupDecision::InProgress => {
                let mut m = String::from_str("Operation ");
                m.append(key.as_str());
                m.append(" is already in progress");
                return Err(ExactlyOnceError::AlreadyCompleted(m));
            },
        }
        let intended = JournalEntry::new_intended_at(key.clone(), copy_value(&payload), now);
        let started = match intended.transition_to_at(OperationStatus::InProgress, now) {
            Ok(e) => e,
            Err(e) => return Err(ExactlyOnceError::JournalTransition(e)),
        };
        proof {
            lemma_first_entry_index(self.journal.entries(), key@);
        }
        let earlier = match self.journal.get(&key) {
            Ok(e) => e,
            Err(e) => return Err(ExactlyOnceError::Journal(e)),
        };
        match earlier {
            Some(_) => match self.journal.update(started) {
                Ok(()) => {},
                Err(e) => return Err(ExactlyOnceError::Journal(e)),
            },
            None => match self.journal.append(started) {
                Ok(()) => {},
                Err(e) => return Err(ExactlyOnceError::Journal(e)),
            },
        }
        Ok(ExecutionStep::Run(payload))
    }

    /// `begin_at` at the current time.
    pub fn begin(&mut self, key: IdempotencyKey, payload: serde_json::Value) -> (r: ExactlyOnceResult<ExecutionStep>)
        ensures
            exists|now: i64| begin_post(old(self).state(), key, payload, now, final(self).state(), r),
    {
        let now = now_millis();
        self.begin_at(key, payload, now)
    }

    /// Record the outcome of the operation for `key` at time `now`.
    pub fn finish_at(&mut self, key: IdempotencyKey, outcome: ExactlyOnceResult<serde_json::Value>, now: i64) -> (r: ExactlyOnceResult<ExecutionResult>)
        ensures
            finish_post(old(self).state(), key, outcome, now, final(self).state(), r),
    {
        proof {
            lemma_first_entry_index(self.journal.entries(), key@);
        }
        let entry = match self.journal.get(&key) {
            Ok(Some(e)) => e,
            Ok(None) => return Err(ExactlyOnceError::Journal(JournalError::NotFound(key.to_string()))),
            Err(e) => return Err(ExactlyOnceError::Journal(e)),
        };
        match outcome {
            Ok(output) => {
                let completed = match entry.transition_to_at(OperationStatus::Completed, now) {
                    Ok(e) => e,
                    Err(e) => return Err(ExactlyOnceError::JournalTransition(e)),
                };
                match self.journal.update(completed) {
                    Ok(()) => {},
                    Err(e) => return Err(ExactlyOnceError::Journal(e)),
                }
                match self.deduplicator.record_completion_at(key.clone(), now) {
                    Ok(()) => {},
                    Err(e) => return Err(ExactlyOnceError::Dedup(e)),
                }
                Ok(ExecutionResult { key, was_deduplicated: false, output: Some(output) })
            },
            Err(err) => {
                let failed = match entry.transition_to_at(OperationStatus::Failed, now) {
                    Ok(e) => e,
                    Err(e) => return Err(ExactlyOnceError::JournalTransition(e)),
                };
                let failed = failed.with_error(err.to_string());
                match self.journal.update(failed) {
                    Ok(()) => {},
                    Err(e) => return Err(ExactlyOnceError::Journal(e)),
                }
                Err(ExactlyOnceError::OperationFailed(err.to_string()))
            },
        }
    }

    /// `finish_at` at the current time.
    pub fn finish(&mut self, key: IdempotencyKey, outcome: ExactlyOnceResult<serde_json::Value>) -> (r: ExactlyOnceResult<ExecutionResult>)
        ensures
            exists|now: i64| finish_post(old(self).state(), key, outcome, now, final(self).state(), r),
    {
        let now = now_millis();
        self.finish_at(key, outcome, now)
    }

    /// Copies of the journal entries whose operation has not finished.
    pub fn recover_incomplete(&self) -> (r: ExactlyOnceResult<Vec<JournalEntry>>)
        ensures
            r matches Ok(v) && v@ == journal::incomplete_entries(self.state().entries),
    {
        match self.journal.get_incomplete() {
            Ok(v) => Ok(v),
            Err(e) => Err(ExactlyOnceError::Journal(e)),
        }
    }

    /// A copy of the first journal entry for `key`.
    pub fn journal_entry(&self, key: &IdempotencyKey) -> (r: ExactlyOnceResult<Option<JournalEntry>>)
        ensures
            first_entry_index(self.state().entries, key@) matches Some(i) ==> r == Ok::<
                Option<JournalEntry>,
                ExactlyOnceError,
            >(Some(self.state().entries[i])),
            first_entry_index(self.state().entries, key@) is None ==> r == Ok::<
                Option<JournalEntry>,
                ExactlyOnceError,
            >(None),
    {
        match self.journal.get(key) {
            Ok(e) => Ok(e),
            Err(e) => Err(ExactlyOnceError::Journal(e)),
        }
    }
}

/// An executor over an in-memory receipt store and journal.
pub struct InMemoryExactlyOnceExecutor {
    inner: ExactlyOnceExecutor,
}

impl InMemoryExactlyOnceExecutor {
    pub closed spec fn state(&self) -> ExecutorState {
        self.inner.state()
    }

    pub fn new() -> (e: Self)
        ensures
            e.state().receipts.len() == 0,
            e.state().entries.len() == 0,
    {
        InMemoryExactlyOnceExecutor {
            inner: ExactlyOnceExecutor::new(InMemoryReceiptStore::new(), InMemoryJournal::new()),
        }
    }

    pub fn begin(&mut self, key: IdempotencyKey, payload: serde_json::Value) -> (r: ExactlyOnceResult<ExecutionStep>)
        ensures
            exists|now: i64| begin_post(old(self).state(), key, payload, now, final(self).state(), r),
    {
        let ghost before = self.inner.state();
        let r = self.inner.begin(key, payload);
        proof {
            let now = choose|now: i64| begin_post(before, key, payload, now, self.inner.state(), r);
            assert(begin_post(old(self).state(), key, payload, now, self.state(), r));
        }
        r
    }

    pub fn finish(&mut self, key: IdempotencyKey, outcome: ExactlyOnceResult<serde_json::Value>) -> (r: ExactlyOnceResult<ExecutionResult>)
        ensures
            exists|now: i64| finish_post(old(self).state(), key, outcome, now, final(self).state(), r),
    {
        let ghost before = self.inner.state();
        let r = self.inner.finish(key, outcome);
        proof {
            let now = choose|now: i64| finish_post(before, key, outcome, now, self.inner.state(), r);
            assert(finish_post(old(self).state(), key, outcome, now, self.state(), r));
        }
        r
    }

    pub fn recover_incomplete(&self) -> (r: ExactlyOnceResult<Vec<JournalEntry>>)
        ensures
            r matches Ok(v) && v@ == journal::incomplete_entries(self.state().entries),
    {
        self.inner.recover_incomplete()
    }

    pub fn journal_entry(&self, key: &IdempotencyKey) -> (r: ExactlyOnceResult<Option<JournalEntry>>)
        ensures
            first_entry_index(self.state().entries, key@) matches Some(i) ==> r == Ok::<
                Option<JournalEntry>,
                ExactlyOnceError,
            >(Some(self.state().entries[i])),
            first_entry_index(self.state().entries, key@) is None ==> r == Ok::<
                Option<JournalEntry>,
                ExactlyOnceError,
            >(None),
    {
        self.inner.journal_entry(key)
    }
}

impl Default for InMemoryExactlyOnceExecutor {
    fn default() -> (e: Self)
        ensures
            e.state().receipts.len() == 0,
            e.state().entries.len() == 0,
    {
        Self::new()
    }
}

} // verus!
