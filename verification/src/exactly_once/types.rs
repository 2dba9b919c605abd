//! Domain types of the exactly-once layer: idempotency keys, receipts,
//! journal entries and the lifecycle of an operation.
use vstd::prelude::*;

use crate::clock::{fresh_uuid, now_millis};
use crate::json::copy_value;
use crate::text::{decimal, push_decimal};

verus! {

/// Longest accepted idempotency key, in bytes.
pub const MAX_KEY_BYTES: usize = 256;

/// Identifies an operation for deduplication.
#[derive(Debug, Hash)]
pub struct IdempotencyKey(pub String);

impl View for IdempotencyKey {
    type V = Seq<char>;

    open spec fn view(&self) -> Seq<char> {
        self.0@
    }
}

impl Clone for IdempotencyKey {
    fn clone(&self) -> (r: Self)
        ensures
            r == *self,
    {
        IdempotencyKey(self.0.clone())
    }
}

impl PartialEq for IdempotencyKey {
    fn eq(&self, other: &Self) -> (r: bool) {
        self.0 == other.0
    }
}

impl Eq for IdempotencyKey {}

impl vstd::std_specs::cmp::PartialEqSpecImpl for IdempotencyKey {
    open spec fn obeys_eq_spec() -> bool {
        true
    }

    open spec fn eq_spec(&self, other: &IdempotencyKey) -> bool {
        self.0@ == other.0@
    }
}

/// The number of bytes of the UTF-8 encoding of a string.
/// (A string held in memory always has a byte length that fits in `usize`.)
pub open spec fn byte_len(s: Seq<char>) -> usize {
    vstd::utf8::encode_utf8(s).len() as usize
}

/// Keys equal by content.
pub fn key_eq(a: &IdempotencyKey, b: &IdempotencyKey) -> (r: bool)
    ensures
        r == (a@ == b@),
{
    a.0 == b.0
}

impl IdempotencyKey {
    /// A key from a string: it must not be empty and must be at most 256 bytes long.
    pub fn new(value: String) -> (r: Result<Self, IdempotencyKeyError>)
        ensures
            value@.len() == 0 ==> r == Err::<Self, IdempotencyKeyError>(IdempotencyKeyError::Empty),
            value@.len() != 0 && byte_len(value@) > 256 ==> r == Err::<Self, IdempotencyKeyError>(
                IdempotencyKeyError::TooLong { len: byte_len(value@), max: 256 },
            ),
            value@.len() != 0 && byte_len(value@) <= 256 ==> (r matches Ok(k) && k.0 == value),
    {
        if value.as_str().is_empty() {
            return Err(IdempotencyKeyError::Empty);
        }
        let len = value.as_str().len();
        if len > MAX_KEY_BYTES {
            return Err(IdempotencyKeyError::TooLong { len, max: MAX_KEY_BYTES });
        }
        Ok(IdempotencyKey(value))
    }

    /// A fresh random key.
    pub fn generate() -> (k: Self)
        ensures
            k@.len() == 36,
    {
        IdempotencyKey(fresh_uuid())
    }

    /// A key from a string, unchecked.
    pub fn from_static(value: &str) -> (k: Self)
        ensures
            k@ == value@,
    {
        IdempotencyKey(String::from_str(value))
    }

    pub fn as_str(&self) -> (s: &str)
        ensures
            s@ == self@,
    {
        self.0.as_str()
    }

    /// The key as `Display` prints it: the key itself.
    pub fn to_string(&self) -> (s: String)
        ensures
            s@ == self@,
    {
        self.0.clone()
    }
}

/// Why a string is not a valid idempotency key.
#[derive(Debug, Clone, Copy, PartialEq, Eq, Structural)]
pub enum IdempotencyKeyError {
    Empty,
    TooLong { len: usize, max: usize },
}

impl IdempotencyKeyError {
    /// The message a user sees for this error.
    pub fn to_string(&self) -> (s: String)
        ensures
            s@ == match *self {
                IdempotencyKeyError::Empty => "IdempotencyKey cannot be empty"@,
                IdempotencyKeyError::TooLong { len, max } => "IdempotencyKey too long: "@ + decimal(
                    len as nat,
                ) + " chars (max "@ + decimal(max as nat) + ")"@,
            },
    {
        match self {
            IdempotencyKeyError::Empty => String::from_str("IdempotencyKey cannot be empty"),
            IdempotencyKeyError::TooLong { len, max } => {
                let mut s = String::from_str("IdempotencyKey too long: ");
                push_decimal(&mut s, *len as u64);
                s.append(" chars (max ");
                push_decimal(&mut s, *max as u64);
                s.append(")");
                s
            },
        }
    }
}

/// Lifecycle of an operation.
#[derive(Debug, Clone, Copy, PartialEq, Eq, Structural, Hash)]
pub enum OperationStatus {
    Intended,
    InProgress,
    Completed,
    Failed,
}

pub open spec fn status_is_terminal(s: OperationStatus) -> bool {
    s == OperationStatus::Completed || s == OperationStatus::Failed
}

impl OperationStatus {
    pub fn is_terminal(&self) -> (r: bool)
        ensures
            r == status_is_terminal(*self),
    {
        match self {
            OperationStatus::Completed | OperationStatus::Failed => true,
            _ => false,
        }
    }
}

/// The name of a status, as `Debug` prints it.
pub open spec fn status_name(s: OperationStatus) -> Seq<char> {
    match s {
        OperationStatus::Intended => "Intended"@,
        OperationStatus::InProgress => "InProgress"@,
        OperationStatus::Completed => "Completed"@,
        OperationStatus::Failed => "Failed"@,
    }
}

pub fn status_name_str(s: OperationStatus) -> (r: &'static str)
    ensures
        r@ == status_name(s),
{
    match s {
        OperationStatus::Intended => "Intended",
        OperationStatus::InProgress => "InProgress",
        OperationStatus::Completed => "Completed",
        OperationStatus::Failed => "Failed",
    }
}

/// Proof that an operation completed. Times are milliseconds since the epoch.
#[derive(Debug)]
pub struct Receipt {
    pub key: IdempotencyKey,
    pub completed_at: i64,
    pub result_hash: Option<String>,
}

impl Clone for Receipt {
    fn clone(&self) -> (r: Self)
        ensures
            r == *self,
    {
        Receipt {
            key: self.key.clone(),
            completed_at: self.completed_at,
            result_hash: self.result_hash.clone(),
        }
    }
}

fn opt_string_eq(a: &Option<String>, b: &Option<String>) -> (r: bool)
    ensures
        r == match (a, b) {
            (None, None) => true,
            (Some(x), Some(y)) => x@ == y@,
            _ => false,
        },
{
    match (a, b) {
        (None, None) => true,
        (Some(x), Some(y)) => *x == *y,
        _ => false,
    }
}

/// Receipts equal by content.
pub open spec fn receipt_eq(a: Receipt, b: Receipt) -> bool {
    &&& a.key@ == b.key@
    &&& a.completed_at == b.completed_at
    &&& match (a.result_hash, b.result_hash) {
        (None, None) => true,
        (Some(x), Some(y)) => x@ == y@,
        _ => false,
    }
}

impl PartialEq for Receipt {
    fn eq(&self, other: &Self) -> (r: bool) {
        key_eq(&self.key, &other.key) && self.completed_at == other.completed_at && opt_string_eq(
            &self.result_hash,
            &other.result_hash,
        )
    }
}

impl Eq for Receipt {}

impl vstd::std_specs::cmp::PartialEqSpecImpl for Receipt {
    open spec fn obeys_eq_spec() -> bool {
        true
    }

    open spec fn eq_spec(&self, other: &Receipt) -> bool {
        receipt_eq(*self, *other)
    }
}

impl Receipt {
    /// A receipt for `key` completed at `now`, without a result hash.
    pub fn new_at(key: IdempotencyKey, now: i64) -> (r: Self)
        ensures
            r == (Receipt { key, completed_at: now, result_hash: None }),
    {
        Receipt { key, completed_at: now, result_hash: None }
    }

    /// A receipt for `key` completed now, without a result hash.
    pub fn new(key: IdempotencyKey) -> (r: Self)
        ensures
            r.key == key,
            r.result_hash is None,
    {
        Receipt::new_at(key, now_millis())
    }

    /// A receipt for `key` completed now, with a result hash.
    pub fn with_hash(key: IdempotencyKey, result_hash: String) -> (r: Self)
        ensures
            r.key == key,
            r.result_hash == Some(result_hash),
    {
        Receipt { key, completed_at: now_millis(), result_hash: Some(result_hash) }
    }
}

/// The recorded intent of an operation, for crash recovery.
#[derive(Debug)]
pub struct JournalEntry {
    pub key: IdempotencyKey,
    pub status: OperationStatus,
    pub payload: serde_json::Value,
    pub created_at: i64,
    pub updated_at: i64,
    pub error: Option<String>,
}

impl Clone for JournalEntry {
    fn clone(&self) -> (r: Self)
        ensures
            r == *self,
    {
        JournalEntry {
            key: self.key.clone(),
            status: self.status,
            payload: copy_value(&self.payload),
            created_at: self.created_at,
            updated_at: self.updated_at,
            error: self.error.clone(),
        }
    }
}

/// The outcome of moving a journal entry in status `from` to `to`: an
/// intended operation starts, a started one completes or fails; terminal
/// entries refuse everything else.
pub open spec fn journal_transition_outcome(from: OperationStatus, to: OperationStatus) -> Option<JournalTransitionError> {
    match (from, to) {
        (OperationStatus::Intended, OperationStatus::InProgress) => None,
        (OperationStatus::InProgress, OperationStatus::Completed) => None,
        (OperationStatus::InProgress, OperationStatus::Failed) => None,
        _ => if status_is_terminal(from) {
            Some(JournalTransitionError::AlreadyTerminal { current: from })
        } else {
            Some(JournalTransitionError::InvalidTransition { from, to })
        },
    }
}

impl JournalEntry {
    /// A new entry recording the intent to run an operation, at time `now`.
    pub fn new_intended_at(key: IdempotencyKey, payload: serde_json::Value, now: i64) -> (e: Self)
        ensures
            e == (JournalEntry {
                key,
                status: OperationStatus::Intended,
                payload,
                created_at: now,
                updated_at: now,
                error: None,
            }),
    {
        JournalEntry {
            key,
            status: OperationStatus::Intended,
            payload,
            created_at: now,
            updated_at: now,
            error: None,
        }
    }

    /// A new entry recording the intent to run an operation, now.
    pub fn new_intended(key: IdempotencyKey, payload: serde_json::Value) -> (e: Self)
        ensures
            e.key == key,
            e.status == OperationStatus::Intended,
            e.payload == payload,
            e.created_at == e.updated_at,
            e.error is None,
    {
        JournalEntry::new_intended_at(key, payload, now_millis())
    }

    /// The entry moved to `new_status` at time `now`, with the error cleared.
    pub fn transition_to_at(&self, new_status: OperationStatus, now: i64) -> (r: Result<Self, JournalTransitionError>)
        ensures
            journal_transition_outcome(self.status, new_status) matches Some(e) ==> r == Err::<
                Self,
                JournalTransitionError,
            >(e),
            journal_transition_outcome(self.status, new_status) is None ==> r == Ok::<
                Self,
                JournalTransitionError,
            >(JournalEntry { status: new_status, updated_at: now, error: None, ..*self }),
    {
        match (self.status, new_status) {
            (OperationStatus::Intended, OperationStatus::InProgress) => {},
            (OperationStatus::InProgress, OperationStatus::Completed) => {},
            (OperationStatus::InProgress, OperationStatus::Failed) => {},
            (s, _) => {
                if s.is_terminal() {
                    return Err(JournalTransitionError::AlreadyTerminal { current: s });
                }
                return Err(JournalTransitionError::InvalidTransition { from: s, to: new_status });
            },
        }
        Ok(
            JournalEntry {
                key: self.key.clone(),
                status: new_status,
                payload: copy_value(&self.payload),
                created_at: self.created_at,
                updated_at: now,
                error: None,
            },
        )
    }

    /// The entry moved to `new_status` now, with the error cleared.
    pub fn transition_to(&self, new_status: OperationStatus) -> (r: Result<Self, JournalTransitionError>)
        ensures
            journal_transition_outcome(self.status, new_status) matches Some(e) ==> r == Err::<
                Self,
                JournalTransitionError,
            >(e),
            journal_transition_outcome(self.status, new_status) is None ==> (r matches Ok(n) && n
                == (JournalEntry { status: new_status, updated_at: n.updated_at, error: None, ..*self })),
    {
        self.transition_to_at(new_status, now_millis())
    }

    /// The same entry with an error message.
    pub fn with_error(&self, error: String) -> (r: Self)
        ensures
            r == (JournalEntry { error: Some(error), ..*self }),
    {
        let mut e = self.clone();
        e.error = Some(error);
        e
    }
}

/// Error when moving a journal entry between statuses.
#[derive(Debug, Clone, Copy, PartialEq, Eq, Structural)]
pub enum JournalTransitionError {
    InvalidTransition { from: OperationStatus, to: OperationStatus },
    AlreadyTerminal { current: OperationStatus },
}

/// The message of a journal transition error.
pub open spec fn transition_message(e: JournalTransitionError) -> Seq<char> {
    match e {
        JournalTransitionError::InvalidTransition { from, to } => "Invalid journal transition from "@
            + status_name(from) + " to "@ + status_name(to),
        JournalTransitionError::AlreadyTerminal { current } => "Journal entry already terminal: "@
            + status_name(current),
    }
}

impl JournalTransitionError {
    /// The message a user sees for this error.
    pub fn to_string(&self) -> (s: String)
        ensures
            s@ == transition_message(*self),
    {
        match self {
            JournalTransitionError::InvalidTransition { from, to } => {
                let mut s = String::from_str("Invalid journal transition from ");
                s.append(status_name_str(*from));
                s.append(" to ");
                s.append(status_name_str(*to));
                s
            },
            JournalTransitionError::AlreadyTerminal { current } => {
                let mut s = String::from_str("Journal entry already terminal: ");
                s.append(status_name_str(*current));
                s
            },
        }
    }
}

} // verus!
