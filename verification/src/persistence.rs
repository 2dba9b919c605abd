//! The pipeline state cache: pipelines kept under the id they were stored
//! with, and whether anything changed since the last write to disk.
//!
//! Reading and writing the state files is the caller's part: it writes a
//! pipeline's file before it hands the pipeline to `create`, `update` or
//! `import`, and writes the pipelines that `sync_plan` lists before it calls
//! `mark_synced`.
use vstd::prelude::*;

use crate::state::{state_is_terminal, Pipeline, PipelineId, PipelineState};

verus! {

/// Errors of the state store. Errors of the file system and of the JSON
/// format arrive as their messages.
#[derive(Debug)]
pub enum StoreError {
    Io(String),
    Serialization(String),
    NotFound(String),
    InvalidState(String),
}

/// The message of a store error.
pub open spec fn store_message(e: StoreError) -> Seq<char> {
    match e {
        StoreError::Io(m) => "IO error: "@ + m@,
        StoreError::Serialization(m) => "Serialization error: "@ + m@,
        StoreError::NotFound(m) => "Pipeline not found: "@ + m@,
        StoreError::InvalidState(m) => "Invalid state file: "@ + m@,
    }
}

impl StoreError {
    /// The message a user sees for this error.
    pub fn to_string(&self) -> (s: String)
        ensures
            s@ == store_message(*self),
    {
        let (mut s, m) = match self {
            StoreError::Io(m) => (String::from_str("IO error: "), m),
            StoreError::Serialization(m) => (String::from_str("Serialization error: "), m),
            StoreError::NotFound(m) => (String::from_str("Pipeline not found: "), m),
            StoreError::InvalidState(m) => (String::from_str("Invalid state file: "), m),
        };
        s.append(m.as_str());
        s
    }
}

/// The views of a sequence of strings.
pub open spec fn key_views(v: Seq<String>) -> Seq<Seq<char>> {
    Seq::new(v.len(), |i: int| v[i]@)
}

/// The index at which key `k` is stored, if it is.
pub open spec fn key_index(keys: Seq<Seq<char>>, k: Seq<char>) -> Option<int> {
    if exists|i: int| 0 <= i < keys.len() && keys[i] == k {
        Some(choose|i: int| 0 <= i < keys.len() && keys[i] == k)
    } else {
        None
    }
}

/// No key occurs twice.
pub open spec fn keys_unique(keys: Seq<Seq<char>>) -> bool {
    forall|i: int, j: int| 0 <= i < keys.len() && 0 <= j < keys.len() && i != j ==> keys[i] != keys[j]
}

/// The pipelines in state `st`, in their stored order.
pub open spec fn pipelines_in_state(s: Seq<Pipeline>, st: PipelineState) -> Seq<Pipeline>
    decreases s.len(),
{
    if s.len() == 0 {
        Seq::empty()
    } else {
        let rest = pipelines_in_state(s.drop_last(), st);
        if s.last().state == st {
            rest.push(s.last())
        } else {
            rest
        }
    }
}

/// The pipelines that have not reached a terminal state, in their stored order.
pub open spec fn unfinished_pipelines(s: Seq<Pipeline>) -> Seq<Pipeline>
    decreases s.len(),
{
    if s.len() == 0 {
        Seq::empty()
    } else {
        let rest = unfinished_pipelines(s.drop_last());
        if !state_is_terminal(s.last().state) {
            rest.push(s.last())
        } else {
            rest
        }
    }
}

/// The pipelines kept for recovery are exactly the stored pipelines that
/// are neither accepted, failed nor escalated.
pub proof fn lemma_recovery_holds_the_unfinished(s: Seq<Pipeline>, p: Pipeline)
    ensures
        unfinished_pipelines(s).contains(p) <==> s.contains(p) && p.state != PipelineState::Accepted
            && p.state != PipelineState::Failed && p.state != PipelineState::Escalated,
    decreases s.len(),
{
    if s.len() > 0 {
        let d = s.drop_last();
        lemma_recovery_holds_the_unfinished(d, p);
        assert(s == d.push(s.last()));
        if s.contains(p) && p != s.last() {
            let i = choose|i: int| 0 <= i < s.len() && s[i] == p;
            assert(d[i] == p);
        }
        if d.contains(p) {
            let i = choose|i: int| 0 <= i < d.len() && d[i] == p;
            assert(s[i] == p);
        }
        let rest = unfinished_pipelines(d);
        if rest.contains(p) {
            let i = choose|i: int| 0 <= i < rest.len() && rest[i] == p;
            assert(rest.push(s.last())[i] == p);
        }
        if !state_is_terminal(s.last().state) {
            assert(rest.push(s.last())[rest.len() as int] == s.last());
            if rest.push(s.last()).contains(p) {
                let i = choose|i: int| 0 <= i < rest.len() + 1 && rest.push(s.last())[i] == p;
                if i < rest.len() {
                    assert(rest[i] == p);
                }
            }
        }
    }
}

/// The pipeline stored under key `k`, if any.
pub open spec fn stored_under(keys: Seq<Seq<char>>, ps: Seq<Pipeline>, k: Seq<char>) -> Option<Pipeline> {
    match key_index(keys, k) {
        Some(i) => Some(ps[i]),
        None => None,
    }
}

/// The keys and pipelines after storing `p` under its id: it replaces the
/// pipeline stored under that id, or is added after the others.
pub open spec fn upserted(keys: Seq<Seq<char>>, ps: Seq<Pipeline>, p: Pipeline) -> (Seq<Seq<char>>, Seq<Pipeline>) {
    match key_index(keys, p.id.0@) {
        Some(i) => (keys, ps.update(i, p)),
        None => (keys.push(p.id.0@), ps.push(p)),
    }
}

/// The in-memory state of the pipeline store.
pub struct StateStore {
    keys: Vec<String>,
    pipelines: Vec<Pipeline>,
    dirty: bool,
}

impl StateStore {
    /// The ids under which pipelines are stored, in the order they were first stored.
    pub closed spec fn keys(&self) -> Seq<Seq<char>> {
        key_views(self.keys@)
    }

    /// The stored pipelines; the `i`th is stored under the `i`th key.
    pub closed spec fn pipelines(&self) -> Seq<Pipeline> {
        self.pipelines@
    }

    /// Whether something changed since the pipelines were last written out.
    pub closed spec fn is_dirty(&self) -> bool {
        self.dirty
    }

    /// One pipeline per key, and no key twice.
    pub open spec fn wf(&self) -> bool {
        &&& self.keys().len() == self.pipelines().len()
        &&& keys_unique(self.keys())
    }

    /// Every pipeline is stored under its own id.
    pub open spec fn ids_match(&self) -> bool {
        forall|i: int| 0 <= i < self.pipelines().len() ==> (#[trigger] self.pipelines()[i]).id.0@ == self.keys()[i]
    }

    /// The pipeline stored under `k`, if any.
    pub open spec fn lookup(&self, k: Seq<char>) -> Option<Pipeline> {
        stored_under(self.keys(), self.pipelines(), k)
    }

    /// An empty store with nothing to write.
    pub fn new() -> (r: Self)
        ensures
            r.wf(),
            r.keys().len() == 0,
            !r.is_dirty(),
    {
        let r = StateStore { keys: Vec::new(), pipelines: Vec::new(), dirty: false };
        assert(r.keys() =~= Seq::<Seq<char>>::empty());
        r
    }

    fn find(&self, k: &str) -> (r: Option<usize>)
        requires
            self.wf(),
        ensures
            r == (match key_index(self.keys(), k@) {
                Some(i) => Some(i as usize),
                None => None::<usize>,
            }),
            r matches Some(i) ==> i < self.keys().len() && self.keys()[i as int] == k@,
    {
        let target = String::from_str(k);
        let mut i: usize = 0;
        while i < self.keys.len()
            invariant
                self.wf(),
                i <= self.keys@.len(),
                target@ == k@,
                forall|j: int| 0 <= j < i ==> self.keys@[j]@ != k@,
            decreases self.keys@.len() - i,
        {
            if self.keys[i] == target {
                proof {
                    lemma_key_index_unique(self.keys(), k@, i as int);
                }
                return Some(i);
            }
            i = i + 1;
        }
        proof {
            lemma_key_index_absent(self.keys(), k@);
        }
        None
    }

    /// Store `p` under its id without marking the store changed: for
    /// pipelines read back from their state files.
    pub fn insert_loaded(&mut self, p: Pipeline)
        requires
            old(self).wf(),
        ensures
            final(self).wf(),
            (final(self).keys(), final(self).pipelines()) == upserted(old(self).keys(), old(self).pipelines(), p),
            final(self).is_dirty() == old(self).is_dirty(),
    {
        let ghost k = p.id.0@;
        match self.find(p.id.0.as_str()) {
            Some(i) => {
                self.pipelines.set(i, p);
            },
            None => {
                let key = p.id.0.clone();
                self.keys.push(key);
                self.pipelines.push(p);
                proof {
                    lemma_key_index_absent_all(old(self).keys(), k);
                    assert(self.keys() =~= old(self).keys().push(k));
                }
            },
        }
    }

    /// Store a new pipeline under its id; returns a copy of it. Its state
    /// file is written first.
    pub fn create(&mut self, pipeline: Pipeline) -> (r: Result<Pipeline, StoreError>)
        requires
            old(self).wf(),
        ensures
            final(self).wf(),
            r matches Ok(q) && q == pipeline,
            (final(self).keys(), final(self).pipelines()) == upserted(old(self).keys(), old(self).pipelines(), pipeline),
            final(self).is_dirty(),
    {
        let copy = pipeline.clone();
        self.insert_loaded(pipeline);
        self.dirty = true;
        Ok(copy)
    }

    /// The pipeline stored under `id`.
    pub fn get(&self, id: &PipelineId) -> (r: Result<&Pipeline, StoreError>)
        requires
            self.wf(),
        ensures
            self.lookup(id.0@) matches Some(p) ==> r matches Ok(q) && *q == p,
            self.lookup(id.0@) is None ==> (r matches Err(StoreError::NotFound(m)) && m@ == id.0@),
    {
        match self.find(id.0.as_str()) {
            Some(i) => Ok(&self.pipelines[i]),
            None => Err(StoreError::NotFound(id.0.clone())),
        }
    }

    /// The pipeline stored under `id`, to change in place; the store counts
    /// as changed either way.
    pub fn get_mut(&mut self, id: &PipelineId) -> (r: Result<&mut Pipeline, StoreError>)
        requires
            old(self).wf(),
        ensures
            final(self).wf(),
            final(self).is_dirty(),
            final(self).keys() == old(self).keys(),
            key_index(old(self).keys(), id.0@) matches Some(i) ==> r matches Ok(q) && *q == old(
                self,
            ).pipelines()[i] && final(self).pipelines() == old(self).pipelines().update(i, *final(q)),
            key_index(old(self).keys(), id.0@) is None ==> (r matches Err(StoreError::NotFound(m)) && m@
                == id.0@) && final(self).pipelines() == old(self).pipelines(),
    {
        self.dirty = true;
        match self.find(id.0.as_str()) {
            Some(i) => Ok(&mut self.pipelines[i]),
            None => Err(StoreError::NotFound(id.0.clone())),
        }
    }

    /// Store `pipeline` under its id, replacing what was stored there. Its
    /// state file is written first.
    pub fn update(&mut self, pipeline: Pipeline) -> (r: Result<(), StoreError>)
        requires
            old(self).wf(),
        ensures
            final(self).wf(),
            r is Ok,
            (final(self).keys(), final(self).pipelines()) == upserted(old(self).keys(), old(self).pipelines(), pipeline),
            final(self).is_dirty(),
    {
        self.insert_loaded(pipeline);
        self.dirty = true;
        Ok(())
    }

    /// Remove the pipeline stored under `id`. Its state file is removed first.
    pub fn delete(&mut self, id: &PipelineId) -> (r: Result<(), StoreError>)
        requires
            old(self).wf(),
        ensures
            final(self).wf(),
            key_index(old(self).keys(), id.0@) matches Some(i) ==> r is Ok && final(self).keys() == old(
                self,
            ).keys().remove(i) && final(self).pipelines() == old(self).pipelines().remove(i)
                && final(self).is_dirty(),
            key_index(old(self).keys(), id.0@) is None ==> (r matches Err(StoreError::NotFound(m)) && m@
                == id.0@) && final(self).keys() == old(self).keys() && final(self).pipelines() == old(
                self,
            ).pipelines() && final(self).is_dirty() == old(self).is_dirty(),
    {
        match self.find(id.0.as_str()) {
            Some(i) => {
                self.keys.remove(i);
                self.pipelines.remove(i);
                self.dirty = true;
                proof {
                    assert(self.keys() =~= old(self).keys().remove(i as int));
                }
                Ok(())
            },
            None => Err(StoreError::NotFound(id.0.clone())),
        }
    }

    /// All stored pipelines.
    pub fn list(&self) -> (r: Vec<&Pipeline>)
        ensures
            r@.len() == self.pipelines().len(),
            forall|i: int| 0 <= i < r@.len() ==> *r@[i] == self.pipelines()[i],
    {
        let mut out: Vec<&Pipeline> = Vec::new();
        let mut i: usize = 0;
        while i < self.pipelines.len()
            invariant
                i <= self.pipelines@.len(),
                out@.len() == i,
                forall|j: int| 0 <= j < i ==> *out@[j] == self.pipelines@[j],
            decreases self.pipelines@.len() - i,
        {
            out.push(&self.pipelines[i]);
            i = i + 1;
        }
        out
    }

    /// The stored pipelines in state `state`.
    pub fn list_by_state(&self, state: PipelineState) -> (r: Vec<&Pipeline>)
        ensures
            r@.len() == pipelines_in_state(self.pipelines(), state).len(),
            forall|i: int| 0 <= i < r@.len() ==> *r@[i] == pipelines_in_state(self.pipelines(), state)[i],
    {
        let mut out: Vec<&Pipeline> = Vec::new();
        let mut i: usize = 0;
        while i < self.pipelines.len()
            invariant
                i <= self.pipelines@.len(),
                out@.len() == pipelines_in_state(self.pipelines@.subrange(0, i as int), state).len(),
                forall|j: int|
                    0 <= j < out@.len() ==> *out@[j] == pipelines_in_state(self.pipelines@.subrange(0, i as int), state)[j],
            decreases self.pipelines@.len() - i,
        {
            assert(self.pipelines@.subrange(0, i as int + 1).drop_last() =~= self.pipelines@.subrange(0, i as int));
            if self.pipelines[i].state == state {
                out.push(&self.pipelines[i]);
            }
            i = i + 1;
        }
        assert(self.pipelines@.subrange(0, i as int) =~= self.pipelines@);
        out
    }

    /// The stored pipelines that have not finished: those to resume after a restart.
    pub fn get_pending_recovery(&self) -> (r: Vec<&Pipeline>)
        ensures
            r@.len() == unfinished_pipelines(self.pipelines()).len(),
            forall|i: int| 0 <= i < r@.len() ==> *r@[i] == unfinished_pipelines(self.pipelines())[i],
    {
        let mut out: Vec<&Pipeline> = Vec::new();
        let mut i: usize = 0;
        while i < self.pipelines.len()
            invariant
                i <= self.pipelines@.len(),
                out@.len() == unfinished_pipelines(self.pipelines@.subrange(0, i as int)).len(),
                forall|j: int|
                    0 <= j < out@.len() ==> *out@[j] == unfinished_pipelines(self.pipelines@.subrange(0, i as int))[j],
            decreases self.pipelines@.len() - i,
        {
            assert(self.pipelines@.subrange(0, i as int + 1).drop_last() =~= self.pipelines@.subrange(0, i as int));
            if !self.pipelines[i].state.is_terminal() {
                out.push(&self.pipelines[i]);
            }
            i = i + 1;
        }
        assert(self.pipelines@.subrange(0, i as int) =~= self.pipelines@);
        out
    }

    /// Whether a pipeline is stored under `id`.
    pub fn contains(&self, id: &PipelineId) -> (r: bool)
        requires
            self.wf(),
        ensures
            r == key_index(self.keys(), id.0@) is Some,
    {
        self.find(id.0.as_str()).is_some()
    }

    /// The pipelines to write out to bring the disk up to date: all of them
    /// when something changed, none otherwise.
    pub fn sync_plan(&self) -> (r: Vec<&Pipeline>)
        ensures
            self.is_dirty() ==> r@.len() == self.pipelines().len() && forall|i: int|
                0 <= i < r@.len() ==> *r@[i] == self.pipelines()[i],
            !self.is_dirty() ==> r@.len() == 0,
    {
        if self.dirty {
            self.list()
        } else {
            Vec::new()
        }
    }

    /// Record that every pipeline has been written out.
    pub fn mark_synced(&mut self)
        requires
            old(self).wf(),
        ensures
            final(self).wf(),
            final(self).keys() == old(self).keys(),
            final(self).pipelines() == old(self).pipelines(),
            !final(self).is_dirty(),
    {
        self.dirty = false;
    }

    /// Store each of `pipelines` under its id, in order; returns how many
    /// there were. Their state files are written first.
    pub fn import(&mut self, pipelines: Vec<Pipeline>) -> (r: usize)
        requires
            old(self).wf(),
        ensures
            final(self).wf(),
            r == pipelines@.len(),
            (final(self).keys(), final(self).pipelines()) == upserted_all(
                old(self).keys(),
                old(self).pipelines(),
                pipelines@,
            ),
            final(self).is_dirty(),
    {
        let count = pipelines.len();
        let mut i: usize = 0;
        while i < pipelines.len()
            invariant
                self.wf(),
                i <= pipelines@.len(),
                count == pipelines@.len(),
                (self.keys(), self.pipelines()) == upserted_all(
                    old(self).keys(),
                    old(self).pipelines(),
                    pipelines@.subrange(0, i as int),
                ),
            decreases pipelines@.len() - i,
        {
            assert(pipelines@.subrange(0, i as int + 1).drop_last() =~= pipelines@.subrange(0, i as int));
            let p = pipelines[i].clone();
            self.insert_loaded(p);
            i = i + 1;
        }
        assert(pipelines@.subrange(0, i as int) =~= pipelines@);
        self.dirty = true;
        count
    }

    /// Forget every pipeline; their state files are removed first.
    pub fn clear(&mut self)
        ensures
            final(self).wf(),
            final(self).keys().len() == 0,
            final(self).pipelines().len() == 0,
            !final(self).is_dirty(),
    {
        self.keys = Vec::new();
        self.pipelines = Vec::new();
        self.dirty = false;
        assert(self.keys() =~= Seq::<Seq<char>>::empty());
    }
}

/// The keys and pipelines after storing each of `ps`, in order.
pub open spec fn upserted_all(keys: Seq<Seq<char>>, stored: Seq<Pipeline>, ps: Seq<Pipeline>) -> (Seq<Seq<char>>, Seq<Pipeline>)
    decreases ps.len(),
{
    if ps.len() == 0 {
        (keys, stored)
    } else {
        let before = upserted_all(keys, stored, ps.drop_last());
        upserted(before.0, before.1, ps.last())
    }
}

/// Storing a pipeline under its own id keeps every pipeline under its own id.
pub proof fn lemma_store_keeps_ids(s: StateStore, p: Pipeline)
    requires
        s.wf(),
        s.ids_match(),
    ensures
        forall|i: int|
            0 <= i < upserted(s.keys(), s.pipelines(), p).1.len() ==> (#[trigger] upserted(s.keys(), s.pipelines(), p).1[i]).id.0@
                == upserted(s.keys(), s.pipelines(), p).0[i],
        upserted(s.keys(), s.pipelines(), p).1.len() == upserted(s.keys(), s.pipelines(), p).0.len(),
{
}

/// A read after a write: once `p` is stored (by `create`, `update` or
/// `insert_loaded`), its id leads to `p`, every other id leads where it led
/// before, and still no id occurs twice.
pub proof fn lemma_read_after_store(s: StateStore, p: Pipeline, k: Seq<char>)
    requires
        s.wf(),
    ensures
        keys_unique(upserted(s.keys(), s.pipelines(), p).0),
        upserted(s.keys(), s.pipelines(), p).0.len() == upserted(s.keys(), s.pipelines(), p).1.len(),
        stored_under(upserted(s.keys(), s.pipelines(), p).0, upserted(s.keys(), s.pipelines(), p).1, p.id.0@)
            == Some(p),
        k != p.id.0@ ==> stored_under(upserted(s.keys(), s.pipelines(), p).0, upserted(s.keys(), s.pipelines(), p).1, k)
            == s.lookup(k),
{
    let keys = s.keys();
    let ps = s.pipelines();
    let id = p.id.0@;
    match key_index(keys, id) {
        Some(i) => {
            lemma_key_index_unique(keys, id, i);
            if key_index(keys, k) is Some {
                let j = key_index(keys, k)->0;
                lemma_key_index_unique(keys, k, j);
            }
        },
        None => {
            let keys2 = keys.push(id);
            let ps2 = ps.push(p);
            assert(keys_unique(keys2)) by {
                assert forall|a: int, b: int| 0 <= a < keys2.len() && 0 <= b < keys2.len() && a != b implies keys2[a] != keys2[b] by {
                    if a == keys.len() {
                        assert(keys[b] != id);
                    } else if b == keys.len() {
                        assert(keys[a] != id);
                    }
                }
            }
            lemma_key_index_unique(keys2, id, keys.len() as int);
            if key_index(keys, k) is Some {
                let j = key_index(keys, k)->0;
                lemma_key_index_unique(keys2, k, j);
            } else if k != id {
                assert forall|j: int| 0 <= j < keys2.len() implies keys2[j] != k by {
                    if j < keys.len() {
                        assert(keys2[j] == keys[j]);
                    }
                }
            }
        },
    }
}

/// A read after a delete: once the pipeline under `id` is deleted, nothing
/// is stored under `id`, and every other id leads where it led before.
pub proof fn lemma_read_after_delete(s: StateStore, id: Seq<char>, k: Seq<char>)
    requires
        s.wf(),
        key_index(s.keys(), id) is Some,
    ensures
        keys_unique(s.keys().remove(key_index(s.keys(), id)->0)),
        stored_under(
            s.keys().remove(key_index(s.keys(), id)->0),
            s.pipelines().remove(key_index(s.keys(), id)->0),
            id,
        ) is None,
        k != id ==> stored_under(
            s.keys().remove(key_index(s.keys(), id)->0),
            s.pipelines().remove(key_index(s.keys(), id)->0),
            k,
        ) == s.lookup(k),
{
    let keys = s.keys();
    let ps = s.pipelines();
    let i = key_index(keys, id)->0;
    let keys2 = keys.remove(i);
    let ps2 = ps.remove(i);
    assert forall|a: int| 0 <= a < keys2.len() implies keys2[a] == (if a < i { keys[a] } else { keys[a + 1] }) by {}
    assert(keys_unique(keys2)) by {
        assert forall|a: int, b: int| 0 <= a < keys2.len() && 0 <= b < keys2.len() && a != b implies keys2[a] != keys2[b] by {
            let a1 = if a < i { a } else { a + 1 };
            let b1 = if b < i { b } else { b + 1 };
            assert(keys2[a] == keys[a1]);
            assert(keys2[b] == keys[b1]);
        }
    }
    assert forall|j: int| 0 <= j < keys2.len() implies keys2[j] != id by {
        let j1 = if j < i { j } else { j + 1 };
        assert(keys2[j] == keys[j1]);
        assert(j1 != i);
    }
    if k != id {
        if key_index(keys, k) is Some {
            let j = key_index(keys, k)->0;
            assert(j != i);
            let j2 = if j < i { j } else { j - 1 };
            assert(keys2[j2] == k);
            lemma_key_index_unique(keys2, k, j2);
            assert(ps2[j2] == ps[j]);
        } else {
            assert forall|j: int| 0 <= j < keys2.len() implies keys2[j] != k by {
                let j1 = if j < i { j } else { j + 1 };
                assert(keys2[j] == keys[j1]);
            }
        }
    }
}

proof fn lemma_key_index_unique(keys: Seq<Seq<char>>, k: Seq<char>, i: int)
    requires
        keys_unique(keys),
        0 <= i < keys.len(),
        keys[i] == k,
    ensures
        key_index(keys, k) == Some(i),
{
}

proof fn lemma_key_index_absent(keys: Seq<Seq<char>>, k: Seq<char>)
    requires
        forall|j: int| 0 <= j < keys.len() ==> keys[j] != k,
    ensures
        key_index(keys, k) is None,
{
}

proof fn lemma_key_index_absent_all(keys: Seq<Seq<char>>, k: Seq<char>)
    requires
        key_index(keys, k) is None,
    ensures
        forall|j: int| 0 <= j < keys.len() ==> keys[j] != k,
{
}

} // verus!
