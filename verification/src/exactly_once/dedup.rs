//! Deduplication: answers whether an operation should run, from the
//! receipts of completed operations.
use vstd::prelude::*;

use super::store::{
    has_receipt, receipt_for, receipt_store_message, InMemoryReceiptStore, ReceiptStoreError,
};
use super::types::{receipt_eq, IdempotencyKey, Receipt};
use crate::clock::now_millis;

verus! {

/// Errors of the deduplicator.
#[derive(Debug, Clone)]
pub enum DedupError {
    AlreadyCompleted(String),
    InProgress(String),
    Store(ReceiptStoreError),
}

/// The message of a deduplication error.
pub open spec fn dedup_message(e: DedupError) -> Seq<char> {
    match e {
        DedupError::AlreadyCompleted(m) => "Operation already completed: "@ + m@,
        DedupError::InProgress(m) => "Operation currently in progress: "@ + m@,
        DedupError::Store(s) => "Receipt store error: "@ + receipt_store_message(s),
    }
}

impl DedupError {
    /// The message a user sees for this error.
    pub fn to_string(&self) -> (s: String)
        ensures
            s@ == dedup_message(*self),
    {
        let (mut s, m) = match self {
            DedupError::AlreadyCompleted(m) => (
                String::from_str("Operation already completed: "),
                m.clone(),
            ),
            DedupError::InProgress(m) => (String::from_str("Operation currently in progress: "), m.clone()),
            DedupError::Store(e) => (String::from_str("Receipt store error: "), e.to_string()),
        };
        s.append(m.as_str());
        s
    }
}

pub type DedupResult<T> = Result<T, DedupError>;

/// Whether an operation should run.
#[derive(Debug)]
pub enum DedupDecision {
    Execute,
    AlreadyCompleted { receipt: Receipt },
    InProgress,
}

impl PartialEq for DedupDecision {
    fn eq(&self, other: &Self) -> (r: bool) {
        match (self, other) {
            (DedupDecision::Execute, DedupDecision::Execute) => true,
            (DedupDecision::InProgress, DedupDecision::InProgress) => true,
            (
                DedupDecision::AlreadyCompleted { receipt: a },
                DedupDecision::AlreadyCompleted { receipt: b },
            ) => *a == *b,
            _ => false,
        }
    }
}

impl Eq for DedupDecision {}

impl vstd::std_specs::cmp::PartialEqSpecImpl for DedupDecision {
    open spec fn obeys_eq_spec() -> bool {
        true
    }

    open spec fn eq_spec(&self, other: &DedupDecision) -> bool {
        match (*self, *other) {
            (DedupDecision::Execute, DedupDecision::Execute) => true,
            (DedupDecision::InProgress, DedupDecision::InProgress) => true,
            (
                DedupDecision::AlreadyCompleted { receipt: a },
                DedupDecision::AlreadyCompleted { receipt: b },
            ) => receipt_eq(a, b),
            _ => false,
        }
    }
}

/// Decides from the receipt store whether an operation should run.
pub struct OperationDeduplicator {
    receipt_store: InMemoryReceiptStore,
}

impl OperationDeduplicator {
    /// The receipts consulted.
    pub closed spec fn receipts(&self) -> Seq<Receipt> {
        self.receipt_store.receipts()
    }

    pub fn new(receipt_store: InMemoryReceiptStore) -> (d: Self)
        ensures
            d.receipts() == receipt_store.receipts(),
    {
        OperationDeduplicator { receipt_store }
    }

    /// Run the operation unless a receipt for its key exists.
    pub fn check(&self, key: &IdempotencyKey) -> (r: DedupResult<DedupDecision>)
        ensures
            has_receipt(self.receipts(), key@) ==> r == Ok::<DedupDecision, DedupError>(
                DedupDecision::AlreadyCompleted { receipt: receipt_for(self.receipts(), key@) },
            ),
            !has_receipt(self.receipts(), key@) ==> r == Ok::<DedupDecision, DedupError>(
                DedupDecision::Execute,
            ),
    {
        match self.receipt_store.get(key) {
            Ok(Some(receipt)) => Ok(DedupDecision::AlreadyCompleted { receipt }),
            Ok(None) => Ok(DedupDecision::Execute),
            Err(e) => Err(DedupError::Store(e)),
        }
    }

    /// Store a receipt; refused when one for its key exists.
    fn record(&mut self, receipt: Receipt) -> (r: DedupResult<()>)
        ensures
            has_receipt(old(self).receipts(), receipt.key@) ==> (r matches Err(
                DedupError::Store(ReceiptStoreError::AlreadyExists(m)),
            ) && m@ == receipt.key@) && final(self).receipts() == old(self).receipts(),
            !has_receipt(old(self).receipts(), receipt.key@) ==> r is Ok && final(self).receipts()
                == old(self).receipts().push(receipt),
    {
        match self.receipt_store.store(receipt) {
            Ok(()) => Ok(()),
            Err(e) => Err(DedupError::Store(e)),
        }
    }

    /// Record that the operation for `key` completed at time `now`.
    pub fn record_completion_at(&mut self, key: IdempotencyKey, now: i64) -> (r: DedupResult<()>)
        ensures
            has_receipt(old(self).receipts(), key@) ==> (r matches Err(
                DedupError::Store(ReceiptStoreError::AlreadyExists(m)),
            ) && m@ == key@) && final(self).receipts() == old(self).receipts(),
            !has_receipt(old(self).receipts(), key@) ==> r is Ok && final(self).receipts()
                == old(self).receipts().push(Receipt { key, completed_at: now, result_hash: None }),
    {
        self.record(Receipt::new_at(key, now))
    }

    /// Record that the operation for `key` completed now.
    pub fn record_completion(&mut self, key: IdempotencyKey) -> (r: DedupResult<()>)
        ensures
            has_receipt(old(self).receipts(), key@) ==> (r matches Err(
                DedupError::Store(ReceiptStoreError::AlreadyExists(m)),
            ) && m@ == key@) && final(self).receipts() == old(self).receipts(),
            !has_receipt(old(self).receipts(), key@) ==> r is Ok && final(self).receipts()
                == old(self).receipts().push(
                Receipt { key, completed_at: final(self).receipts().last().completed_at, result_hash: None },
            ),
    {
        self.record_completion_at(key, now_millis())
    }

    /// Record that the operation for `key` completed now, with a hash of its result.
    pub fn record_completion_with_hash(&mut self, key: IdempotencyKey, result_hash: String) -> (r: DedupResult<()>)
        ensures
            has_receipt(old(self).receipts(), key@) ==> (r matches Err(
                DedupError::Store(ReceiptStoreError::AlreadyExists(m)),
            ) && m@ == key@) && final(self).receipts() == old(self).receipts(),
            !has_receipt(old(self).receipts(), key@) ==> r is Ok && final(self).receipts()
                == old(self).receipts().push(
                Receipt {
                    key,
                    completed_at: final(self).receipts().last().completed_at,
                    result_hash: Some(result_hash),
                },
            ),
    {
        self.record(Receipt::with_hash(key, result_hash))
    }
}

} // verus!
