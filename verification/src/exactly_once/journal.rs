//! Journal of operation intents, for crash recovery: operations that are
//! still intended or in progress after a restart are the ones to replay.
use vstd::prelude::*;

use super::types::{
    key_eq, status_is_terminal, IdempotencyKey, JournalEntry, JournalTransitionError,
};

verus! {

/// Errors of journal operations.
#[derive(Debug, Clone)]
pub enum JournalError {
    NotFound(String),
    Internal(String),
    Transition(JournalTransitionError),
}

impl JournalError {
    /// The message a user sees for this error.
    pub fn to_string(&self) -> (s: String)
        ensures
            s@ == match self {
                JournalError::NotFound(m) => "Entry not found: "@ + m@,
                JournalError::Internal(m) => "Journal error: "@ + m@,
                JournalError::Transition(e) => "Transition error: "@ + super::types::transition_message(
                    *e,
                ),
            },
    {
        match self {
            JournalError::NotFound(m) => {
                let mut s = String::from_str("Entry not found: ");
                s.append(m.as_str());
                s
            },
            JournalError::Internal(m) => {
                let mut s = String::from_str("Journal error: ");
                s.append(m.as_str());
                s
            },
            JournalError::Transition(e) => {
                let mut s = String::from_str("Transition error: ");
                let m = e.to_string();
                s.append(m.as_str());
                s
            },
        }
    }
}

pub type JournalResult<T> = Result<T, JournalError>;

/// The index of the first entry for `key`, if any.
pub open spec fn first_entry_index(entries: Seq<JournalEntry>, key: Seq<char>) -> Option<int> {
    if exists|i: int| 0 <= i < entries.len() && (#[trigger] entries[i]).key@ == key {
        Some(
            choose|i: int|
                0 <= i < entries.len() && (#[trigger] entries[i]).key@ == key && forall|j: int|
                    0 <= j < i ==> entries[j].key@ != key,
        )
    } else {
        None
    }
}

/// The entries whose operation has not finished, in journal order.
pub open spec fn incomplete_entries(entries: Seq<JournalEntry>) -> Seq<JournalEntry>
    decreases entries.len(),
{
    if entries.len() == 0 {
        Seq::empty()
    } else {
        let rest = incomplete_entries(entries.drop_last());
        if status_is_terminal(entries.last().status) {
            rest
        } else {
            rest.push(entries.last())
        }
    }
}

/// The entries that are not for `key`, in journal order.
pub open spec fn entries_without(entries: Seq<JournalEntry>, key: Seq<char>) -> Seq<JournalEntry>
    decreases entries.len(),
{
    if entries.len() == 0 {
        Seq::empty()
    } else {
        let rest = entries_without(entries.drop_last(), key);
        if entries.last().key@ == key {
            rest
        } else {
            rest.push(entries.last())
        }
    }
}

/// Finding the first entry of a key: either a first index exists or no entry has the key.
pub proof fn lemma_first_entry_index(entries: Seq<JournalEntry>, key: Seq<char>)
    ensures
        first_entry_index(entries, key) matches Some(i) ==> 0 <= i < entries.len() && entries[i].key@
            == key && forall|j: int| 0 <= j < i ==> entries[j].key@ != key,
        first_entry_index(entries, key) is None ==> forall|j: int|
            0 <= j < entries.len() ==> entries[j].key@ != key,
{
    if exists|i: int| 0 <= i < entries.len() && (#[trigger] entries[i]).key@ == key {
        let i = choose|i: int| 0 <= i < entries.len() && (#[trigger] entries[i]).key@ == key;
        let m = lemma_first_key_index(entries, key, i);
    }
}

proof fn lemma_first_key_index(entries: Seq<JournalEntry>, key: Seq<char>, i: int) -> (m: int)
    requires
        0 <= i < entries.len(),
        entries[i].key@ == key,
    ensures
        0 <= m <= i,
        entries[m].key@ == key,
        forall|j: int| 0 <= j < m ==> entries[j].key@ != key,
    decreases i,
{
    if exists|j: int| 0 <= j < i && (#[trigger] entries[j]).key@ == key {
        let j = choose|j: int| 0 <= j < i && (#[trigger] entries[j]).key@ == key;
        lemma_first_key_index(entries, key, j)
    } else {
        i
    }
}

/// An in-memory journal.
pub struct InMemoryJournal {
    entries: Vec<JournalEntry>,
}

impl InMemoryJournal {
    /// The entries, oldest first.
    pub closed spec fn entries(&self) -> Seq<JournalEntry> {
        self.entries@
    }

    pub fn new() -> (j: Self)
        ensures
            j.entries().len() == 0,
    {
        InMemoryJournal { entries: Vec::new() }
    }

    fn find(&self, key: &IdempotencyKey) -> (r: Option<usize>)
        ensures
            r matches Some(i) ==> Some(i as int) == first_entry_index(self.entries(), key@) && i
                < self.entries().len(),
            r is None ==> first_entry_index(self.entries(), key@) is None,
    {
        proof {
            lemma_first_entry_index(self.entries@, key@);
        }
        let mut i: usize = 0;
        while i < self.entries.len()
            invariant
                i <= self.entries@.len(),
                forall|j: int| 0 <= j < i ==> self.entries@[j].key@ != key@,
            decreases self.entries@.len() - i,
        {
            if key_eq(&self.entries[i].key, key) {
                return Some(i);
            }
            i = i + 1;
        }
        None
    }

    /// Record an entry at the end of the journal.
    pub fn append(&mut self, entry: JournalEntry) -> (r: JournalResult<()>)
        ensures
            r is Ok,
            final(self).entries() == old(self).entries().push(entry),
    {
        self.entries.push(entry);
        Ok(())
    }

    /// Replace the first entry for the entry's key.
    pub fn update(&mut self, entry: JournalEntry) -> (r: JournalResult<()>)
        ensures
            first_entry_index(old(self).entries(), entry.key@) matches Some(i) ==> r is Ok
                && final(self).entries() == old(self).entries().update(i, entry),
            first_entry_index(old(self).entries(), entry.key@) is None ==> (r matches Err(
                JournalError::NotFound(m),
            ) && m@ == entry.key@) && final(self).entries() == old(self).entries(),
    {
        match self.find(&entry.key) {
            Some(i) => {
                self.entries.set(i, entry);
                Ok(())
            },
            None => Err(JournalError::NotFound(entry.key.to_string())),
        }
    }

    /// A copy of the first entry for `key`.
    pub fn get(&self, key: &IdempotencyKey) -> (r: JournalResult<Option<JournalEntry>>)
        ensures
            first_entry_index(self.entries(), key@) matches Some(i) ==> r == Ok::<
                Option<JournalEntry>,
                JournalError,
            >(Some(self.entries()[i])),
            first_entry_index(self.entries(), key@) is None ==> r == Ok::<
                Option<JournalEntry>,
                JournalError,
            >(None),
    {
        match self.find(key) {
            Some(i) => Ok(Some(self.entries[i].clone())),
            None => Ok(None),
        }
    }

    /// Copies of the entries whose operation has not finished, oldest first.
    pub fn get_incomplete(&self) -> (r: JournalResult<Vec<JournalEntry>>)
        ensures
            r matches Ok(v) && v@ == incomplete_entries(self.entries()),
    {
        let mut out: Vec<JournalEntry> = Vec::new();
        let mut i: usize = 0;
        while i < self.entries.len()
            invariant
                i <= self.entries@.len(),
                out@ == incomplete_entries(self.entries@.subrange(0, i as int)),
            decreases self.entries@.len() - i,
        {
            assert(self.entries@.subrange(0, i as int + 1).drop_last() =~= self.entries@.subrange(
                0,
                i as int,
            ));
            if !self.entries[i].status.is_terminal() {
                out.push(self.entries[i].clone());
            }
            i = i + 1;
        }
        assert(self.entries@.subrange(0, i as int) =~= self.entries@);
        Ok(out)
    }

    /// Drop every entry for `key`; an error when there is none.
    pub fn remove(&mut self, key: &IdempotencyKey) -> (r: JournalResult<()>)
        ensures
            first_entry_index(old(self).entries(), key@) is Some ==> r is Ok
                && final(self).entries() == entries_without(old(self).entries(), key@),
            first_entry_index(old(self).entries(), key@) is None ==> (r matches Err(
                JournalError::NotFound(m),
            ) && m@ == key@) && final(self).entries() == old(self).entries(),
    {
        if self.find(key).is_none() {
            return Err(JournalError::NotFound(key.to_string()));
        }
        let mut kept: Vec<JournalEntry> = Vec::new();
        let mut i: usize = 0;
        while i < self.entries.len()
            invariant
                i <= self.entries@.len(),
                kept@ == entries_without(self.entries@.subrange(0, i as int), key@),
            decreases self.entries@.len() - i,
        {
            assert(self.entries@.subrange(0, i as int + 1).drop_last() =~= self.entries@.subrange(
                0,
                i as int,
            ));
            if !key_eq(&self.entries[i].key, key) {
                kept.push(self.entries[i].clone());
            }
            i = i + 1;
        }
        assert(self.entries@.subrange(0, i as int) =~= self.entries@);
        self.entries = kept;
        Ok(())
    }

    /// The number of entries.
    pub fn len(&self) -> (r: JournalResult<usize>)
        ensures
            r == Ok::<usize, JournalError>(self.entries().len() as usize),
    {
        Ok(self.entries.len())
    }

    pub fn is_empty(&self) -> (r: JournalResult<bool>)
        ensures
            r == Ok::<bool, JournalError>(self.entries().len() == 0),
    {
        Ok(self.entries.len() == 0)
    }
}

impl Default for InMemoryJournal {
    fn default() -> (j: Self)
        ensures
            j.entries().len() == 0,
    {
        Self::new()
    }
}

} // verus!
