//! The job repository, and ordering jobs by priority.
use vstd::prelude::*;

use super::processor::{QueueError, QueueResult};
use super::types::{priority_value, Job, JobPriority, JobState};
use crate::clock::now_millis;

verus! {

/// The jobs of priority `p`, in the order given.
pub open spec fn jobs_with_priority(s: Seq<Job>, p: JobPriority) -> Seq<Job>
    decreases s.len(),
{
    if s.len() == 0 {
        Seq::empty()
    } else {
        let rest = jobs_with_priority(s.drop_last(), p);
        if s.last().priority == p {
            rest.push(s.last())
        } else {
            rest
        }
    }
}

/// The jobs ordered by priority, most urgent first; jobs of equal priority
/// keep the order they were given in.
pub open spec fn by_priority(s: Seq<Job>) -> Seq<Job> {
    jobs_with_priority(s, JobPriority::P0) + jobs_with_priority(s, JobPriority::P1)
        + jobs_with_priority(s, JobPriority::P2) + jobs_with_priority(s, JobPriority::P3)
        + jobs_with_priority(s, JobPriority::P4)
}

/// The pending jobs, in the order given.
pub open spec fn pending_jobs(s: Seq<Job>) -> Seq<Job>
    decreases s.len(),
{
    if s.len() == 0 {
        Seq::empty()
    } else {
        let rest = pending_jobs(s.drop_last());
        if s.last().state is Pending {
            rest.push(s.last())
        } else {
            rest
        }
    }
}

/// The index of the first job with the given id, if any.
pub open spec fn first_job_index(s: Seq<Job>, id: Seq<char>) -> Option<int> {
    if exists|i: int| 0 <= i < s.len() && (#[trigger] s[i]).id@ == id {
        Some(choose|i: int| 0 <= i < s.len() && (#[trigger] s[i]).id@ == id && forall|j: int| 0 <= j < i ==> s[j].id@ != id)
    } else {
        None
    }
}

proof fn lemma_first_job_index(s: Seq<Job>, id: Seq<char>, i: int)
    requires
        0 <= i < s.len(),
        s[i].id@ == id,
        forall|j: int| 0 <= j < i ==> s[j].id@ != id,
    ensures
        first_job_index(s, id) == Some(i),
{
    let c = choose|c: int| 0 <= c < s.len() && (#[trigger] s[c]).id@ == id && forall|j: int| 0 <= j < c ==> s[j].id@ != id;
    assert(c == i) by {
        if c < i {
            assert(s[c].id@ != id);
        } else if c > i {
            assert(s[i].id@ != id);
        }
    }
}

/// The first index of a job with the given id exists once any job has it.
pub proof fn lemma_first_job_index_found(s: Seq<Job>, id: Seq<char>, k: int)
    requires
        0 <= k < s.len(),
        s[k].id@ == id,
    ensures
        first_job_index(s, id) matches Some(i) && 0 <= i <= k && s[i].id@ == id && forall|j: int|
            0 <= j < i ==> s[j].id@ != id,
{
    let i = min_job_index(s, id, 0, k);
    lemma_first_job_index(s, id, i);
}

/// What the first index of an id is: the least index holding a job with
/// that id, or none when no job has it.
pub proof fn lemma_first_job_index_props(s: Seq<Job>, id: Seq<char>)
    ensures
        first_job_index(s, id) matches Some(i) ==> 0 <= i < s.len() && s[i].id@ == id && forall|j: int|
            0 <= j < i ==> s[j].id@ != id,
        first_job_index(s, id) is None ==> forall|j: int| 0 <= j < s.len() ==> s[j].id@ != id,
{
    if exists|w: int| 0 <= w < s.len() && (#[trigger] s[w]).id@ == id {
        let w = choose|w: int| 0 <= w < s.len() && (#[trigger] s[w]).id@ == id;
        lemma_first_job_index_found(s, id, w);
    }
}

proof fn min_job_index(s: Seq<Job>, id: Seq<char>, lo: int, k: int) -> (i: int)
    requires
        0 <= lo <= k < s.len(),
        s[k].id@ == id,
        forall|j: int| 0 <= j < lo ==> s[j].id@ != id,
    ensures
        lo <= i <= k,
        s[i].id@ == id,
        forall|j: int| 0 <= j < i ==> s[j].id@ != id,
    decreases k - lo,
{
    if s[lo].id@ == id {
        lo
    } else {
        min_job_index(s, id, lo + 1, k)
    }
}

/// Replacing a job by one with the same id keeps the first index of that id.
pub proof fn lemma_update_keeps_first_index(s: Seq<Job>, id: Seq<char>, i: int, job: Job)
    requires
        first_job_index(s, id) == Some(i),
        job.id == s[i].id,
    ensures
        first_job_index(s.update(i, job), id) == Some(i),
{
    let w = choose|w: int| 0 <= w < s.len() && (#[trigger] s[w]).id@ == id;
    lemma_first_job_index_found(s, id, w);
    let s2 = s.update(i, job);
    assert forall|j: int| 0 <= j < i implies s2[j].id@ != id by {
        assert(s2[j] == s[j]);
    }
    lemma_first_job_index(s2, id, i);
}

/// Every job of priority `p` is one of the jobs.
proof fn lemma_with_priority_members(s: Seq<Job>, p: JobPriority, x: Job)
    requires
        jobs_with_priority(s, p).contains(x),
    ensures
        s.contains(x),
    decreases s.len(),
{
    if s.len() > 0 {
        let rest = jobs_with_priority(s.drop_last(), p);
        if s.last().priority == p && x == s.last() {
            assert(s[s.len() - 1] == x);
        } else {
            if s.last().priority == p {
                let k = choose|k: int| 0 <= k < rest.push(s.last()).len() && rest.push(s.last())[k] == x;
                assert(k < rest.len());
                assert(rest[k] == x);
            }
            assert(rest.contains(x));
            lemma_with_priority_members(s.drop_last(), p, x);
            let k = choose|k: int| 0 <= k < s.drop_last().len() && s.drop_last()[k] == x;
            assert(s[k] == x);
        }
    }
}

/// Every job that `by_priority` lists is one of the jobs.
pub proof fn lemma_by_priority_members(s: Seq<Job>, x: Job)
    requires
        by_priority(s).contains(x),
    ensures
        s.contains(x),
{
    let a = jobs_with_priority(s, JobPriority::P0);
    let b = jobs_with_priority(s, JobPriority::P1);
    let c = jobs_with_priority(s, JobPriority::P2);
    let d = jobs_with_priority(s, JobPriority::P3);
    let e = jobs_with_priority(s, JobPriority::P4);
    let q = by_priority(s);
    let k = choose|k: int| 0 <= k < q.len() && q[k] == x;
    if k < a.len() {
        assert(a[k] == x);
        lemma_with_priority_members(s, JobPriority::P0, x);
    } else if k < a.len() + b.len() {
        assert(b[k - a.len()] == x);
        lemma_with_priority_members(s, JobPriority::P1, x);
    } else if k < a.len() + b.len() + c.len() {
        assert(c[k - a.len() - b.len()] == x);
        lemma_with_priority_members(s, JobPriority::P2, x);
    } else if k < a.len() + b.len() + c.len() + d.len() {
        assert(d[k - a.len() - b.len() - c.len()] == x);
        lemma_with_priority_members(s, JobPriority::P3, x);
    } else {
        assert(e[k - a.len() - b.len() - c.len() - d.len()] == x);
        lemma_with_priority_members(s, JobPriority::P4, x);
    }
}

/// Every pending job is one of the jobs.
pub proof fn lemma_pending_members(s: Seq<Job>, x: Job)
    requires
        pending_jobs(s).contains(x),
    ensures
        s.contains(x),
    decreases s.len(),
{
    if s.len() > 0 {
        let rest = pending_jobs(s.drop_last());
        if s.last().state is Pending && x == s.last() {
            assert(s[s.len() - 1] == x);
        } else {
            if s.last().state is Pending {
                let k = choose|k: int| 0 <= k < rest.push(s.last()).len() && rest.push(s.last())[k] == x;
                assert(k < rest.len());
                assert(rest[k] == x);
            }
            assert(rest.contains(x));
            lemma_pending_members(s.drop_last(), x);
            let k = choose|k: int| 0 <= k < s.drop_last().len() && s.drop_last()[k] == x;
            assert(s[k] == x);
        }
    }
}

proof fn lemma_with_priority_only_p(s: Seq<Job>, p: JobPriority)
    ensures
        forall|k: int| 0 <= k < jobs_with_priority(s, p).len() ==> (#[trigger] jobs_with_priority(s, p)[k]).priority == p,
    decreases s.len(),
{
    if s.len() > 0 {
        lemma_with_priority_only_p(s.drop_last(), p);
    }
}

proof fn lemma_with_priority_lengths(s: Seq<Job>)
    ensures
        jobs_with_priority(s, JobPriority::P0).len() + jobs_with_priority(s, JobPriority::P1).len()
            + jobs_with_priority(s, JobPriority::P2).len() + jobs_with_priority(s, JobPriority::P3).len()
            + jobs_with_priority(s, JobPriority::P4).len() == s.len(),
    decreases s.len(),
{
    if s.len() > 0 {
        lemma_with_priority_lengths(s.drop_last());
    }
}

/// The jobs of priority `p` among `a + b` are those among `a`, then those among `b`.
proof fn lemma_with_priority_concat(a: Seq<Job>, b: Seq<Job>, p: JobPriority)
    ensures
        jobs_with_priority(a + b, p) == jobs_with_priority(a, p) + jobs_with_priority(b, p),
    decreases b.len(),
{
    if b.len() == 0 {
        assert(a + b =~= a);
        assert(jobs_with_priority(a, p) + jobs_with_priority(b, p) =~= jobs_with_priority(a, p));
    } else {
        lemma_with_priority_concat(a, b.drop_last(), p);
        assert((a + b).drop_last() =~= a + b.drop_last());
        assert((a + b).last() == b.last());
        let x = jobs_with_priority(a, p);
        let y = jobs_with_priority(b.drop_last(), p);
        assert(x + y.push(b.last()) =~= (x + y).push(b.last()));
    }
}

/// Selecting the jobs of priority `p` among those of priority `q` keeps
/// them all when `p` is `q`, and keeps none otherwise.
proof fn lemma_with_priority_twice(s: Seq<Job>, q: JobPriority, p: JobPriority)
    ensures
        jobs_with_priority(jobs_with_priority(s, q), p) == (if p == q {
            jobs_with_priority(s, q)
        } else {
            Seq::<Job>::empty()
        }),
    decreases s.len(),
{
    if s.len() > 0 {
        lemma_with_priority_twice(s.drop_last(), q, p);
        let rest = jobs_with_priority(s.drop_last(), q);
        if s.last().priority == q {
            assert(rest.push(s.last()).drop_last() =~= rest);
        }
    }
}

/// Ordering by priority is stable: the jobs of each priority come out in
/// the order they were given in.
pub proof fn lemma_by_priority_stable(s: Seq<Job>, p: JobPriority)
    ensures
        jobs_with_priority(by_priority(s), p) == jobs_with_priority(s, p),
{
    let a = jobs_with_priority(s, JobPriority::P0);
    let b = jobs_with_priority(s, JobPriority::P1);
    let c = jobs_with_priority(s, JobPriority::P2);
    let d = jobs_with_priority(s, JobPriority::P3);
    let e = jobs_with_priority(s, JobPriority::P4);
    lemma_with_priority_concat(a + b + c + d, e, p);
    lemma_with_priority_concat(a + b + c, d, p);
    lemma_with_priority_concat(a + b, c, p);
    lemma_with_priority_concat(a, b, p);
    lemma_with_priority_twice(s, JobPriority::P0, p);
    lemma_with_priority_twice(s, JobPriority::P1, p);
    lemma_with_priority_twice(s, JobPriority::P2, p);
    lemma_with_priority_twice(s, JobPriority::P3, p);
    lemma_with_priority_twice(s, JobPriority::P4, p);
    let empty = Seq::<Job>::empty();
    let r = jobs_with_priority(s, p);
    match p {
        JobPriority::P0 => {
            assert(r + empty + empty + empty + empty =~= r);
        },
        JobPriority::P1 => {
            assert(empty + r + empty + empty + empty =~= r);
        },
        JobPriority::P2 => {
            assert(empty + empty + r + empty + empty =~= r);
        },
        JobPriority::P3 => {
            assert(empty + empty + empty + r + empty =~= r);
        },
        JobPriority::P4 => {
            assert(empty + empty + empty + empty + r =~= r);
        },
    }
}

/// The jobs of the five priorities, taken together, are the jobs.
proof fn lemma_priority_classes_multiset(s: Seq<Job>)
    ensures
        s.to_multiset() =~= jobs_with_priority(s, JobPriority::P0).to_multiset().add(
            jobs_with_priority(s, JobPriority::P1).to_multiset(),
        ).add(jobs_with_priority(s, JobPriority::P2).to_multiset()).add(
            jobs_with_priority(s, JobPriority::P3).to_multiset(),
        ).add(jobs_with_priority(s, JobPriority::P4).to_multiset()),
    decreases s.len(),
{
    broadcast use vstd::multiset::group_multiset_axioms;
    broadcast use vstd::seq_lib::to_multiset_contains;

    if s.len() == 0 {
        assert(s.to_multiset() =~= vstd::multiset::Multiset::empty());
        assert(jobs_with_priority(s, JobPriority::P0).to_multiset() =~= vstd::multiset::Multiset::empty());
        assert(jobs_with_priority(s, JobPriority::P1).to_multiset() =~= vstd::multiset::Multiset::empty());
        assert(jobs_with_priority(s, JobPriority::P2).to_multiset() =~= vstd::multiset::Multiset::empty());
        assert(jobs_with_priority(s, JobPriority::P3).to_multiset() =~= vstd::multiset::Multiset::empty());
        assert(jobs_with_priority(s, JobPriority::P4).to_multiset() =~= vstd::multiset::Multiset::empty());
    } else {
        let d = s.drop_last();
        let x = s.last();
        lemma_priority_classes_multiset(d);
        assert(s =~= d.push(x));
        vstd::seq_lib::to_multiset_build(d, x);
        vstd::seq_lib::to_multiset_build(jobs_with_priority(d, JobPriority::P0), x);
        vstd::seq_lib::to_multiset_build(jobs_with_priority(d, JobPriority::P1), x);
        vstd::seq_lib::to_multiset_build(jobs_with_priority(d, JobPriority::P2), x);
        vstd::seq_lib::to_multiset_build(jobs_with_priority(d, JobPriority::P3), x);
        vstd::seq_lib::to_multiset_build(jobs_with_priority(d, JobPriority::P4), x);
    }
}

/// Ordering by priority neither drops nor adds a job: the result holds
/// each job exactly as many times as the input does.
pub proof fn lemma_by_priority_permutation(s: Seq<Job>)
    ensures
        by_priority(s).to_multiset() == s.to_multiset(),
{
    let a = jobs_with_priority(s, JobPriority::P0);
    let b = jobs_with_priority(s, JobPriority::P1);
    let c = jobs_with_priority(s, JobPriority::P2);
    let d = jobs_with_priority(s, JobPriority::P3);
    let e = jobs_with_priority(s, JobPriority::P4);
    lemma_priority_classes_multiset(s);
    vstd::seq_lib::lemma_multiset_commutative(a, b);
    vstd::seq_lib::lemma_multiset_commutative(a + b, c);
    vstd::seq_lib::lemma_multiset_commutative(a + b + c, d);
    vstd::seq_lib::lemma_multiset_commutative(a + b + c + d, e);
}

/// Polling order: the queue holds as many jobs as it was given, and a job
/// never comes after a less urgent one.
pub proof fn lemma_by_priority_ordered(s: Seq<Job>)
    ensures
        by_priority(s).len() == s.len(),
        forall|i: int, j: int|
            0 <= i < j < s.len() ==> priority_value(#[trigger] by_priority(s)[i].priority) <= priority_value(
                #[trigger] by_priority(s)[j].priority,
            ),
{
    lemma_with_priority_lengths(s);
    lemma_with_priority_only_p(s, JobPriority::P0);
    lemma_with_priority_only_p(s, JobPriority::P1);
    lemma_with_priority_only_p(s, JobPriority::P2);
    lemma_with_priority_only_p(s, JobPriority::P3);
    lemma_with_priority_only_p(s, JobPriority::P4);
    let a = jobs_with_priority(s, JobPriority::P0);
    let b = jobs_with_priority(s, JobPriority::P1);
    let c = jobs_with_priority(s, JobPriority::P2);
    let d = jobs_with_priority(s, JobPriority::P3);
    let e = jobs_with_priority(s, JobPriority::P4);
    let q = by_priority(s);
    assert forall|k: int| 0 <= k < q.len() implies priority_value(#[trigger] q[k].priority) == (if k < a.len() {
        0int
    } else if k < a.len() + b.len() {
        1int
    } else if k < a.len() + b.len() + c.len() {
        2int
    } else if k < a.len() + b.len() + c.len() + d.len() {
        3int
    } else {
        4int
    }) by {
        if k < a.len() {
            assert(q[k] == a[k]);
        } else if k < a.len() + b.len() {
            assert(q[k] == b[k - a.len()]);
        } else if k < a.len() + b.len() + c.len() {
            assert(q[k] == c[k - a.len() - b.len()]);
        } else if k < a.len() + b.len() + c.len() + d.len() {
            assert(q[k] == d[k - a.len() - b.len() - c.len()]);
        } else {
            assert(q[k] == e[k - a.len() - b.len() - c.len() - d.len()]);
        }
    }
}

/// Copies of the jobs of priority `p`, in the order given, appended to `out`.
fn append_with_priority(jobs: &Vec<Job>, p: JobPriority, out: &mut Vec<Job>)
    ensures
        final(out)@ == old(out)@ + jobs_with_priority(jobs@, p),
{
    let mut i: usize = 0;
    let ghost start = out@;
    while i < jobs.len()
        invariant
            i <= jobs@.len(),
            out@ == start + jobs_with_priority(jobs@.subrange(0, i as int), p),
        decreases jobs@.len() - i,
    {
        assert(jobs@.subrange(0, i as int + 1).drop_last() =~= jobs@.subrange(0, i as int));
        if jobs[i].priority.value() == p.value() {
            let j = jobs[i].clone();
            out.push(j);
            assert(start + jobs_with_priority(jobs@.subrange(0, i as int), p).push(jobs@[i as int]) =~= start
                + jobs_with_priority(jobs@.subrange(0, i as int), p).push(jobs@[i as int]));
        }
        i = i + 1;
    }
    assert(jobs@.subrange(0, i as int) =~= jobs@);
}

/// Copies of the jobs ordered by priority (see `by_priority`).
fn sorted_copy(jobs: &Vec<Job>) -> (r: Vec<Job>)
    ensures
        r@ == by_priority(jobs@),
{
    let mut out: Vec<Job> = Vec::new();
    append_with_priority(jobs, JobPriority::P0, &mut out);
    append_with_priority(jobs, JobPriority::P1, &mut out);
    append_with_priority(jobs, JobPriority::P2, &mut out);
    append_with_priority(jobs, JobPriority::P3, &mut out);
    append_with_priority(jobs, JobPriority::P4, &mut out);
    assert(out@ =~= by_priority(jobs@));
    out
}

/// Order jobs by priority, most urgent first, keeping the order of jobs of
/// equal priority: the result holds the same jobs, sorted by priority, and
/// the jobs of each priority in the order they were given in.
pub fn sort_jobs_by_priority(jobs: &mut Vec<Job>)
    ensures
        final(jobs)@ == by_priority(old(jobs)@),
        final(jobs)@.to_multiset() == old(jobs)@.to_multiset(),
        forall|i: int, j: int|
            0 <= i < j < final(jobs)@.len() ==> priority_value(#[trigger] final(jobs)@[i].priority)
                <= priority_value(#[trigger] final(jobs)@[j].priority),
        forall|p: JobPriority| #[trigger] jobs_with_priority(final(jobs)@, p) == jobs_with_priority(old(jobs)@, p),
{
    let ghost before = jobs@;
    let sorted = sorted_copy(jobs);
    *jobs = sorted;
    proof {
        lemma_by_priority_permutation(before);
        lemma_by_priority_ordered(before);
        assert forall|p: JobPriority| #[trigger] jobs_with_priority(by_priority(before), p) == jobs_with_priority(before, p) by {
            lemma_by_priority_stable(before, p);
        }
    }
}

/// An in-memory job repository.
pub struct InMemoryJobRepository {
    jobs: Vec<Job>,
}

impl InMemoryJobRepository {
    /// The jobs, in the order they were added.
    pub closed spec fn jobs(&self) -> Seq<Job> {
        self.jobs@
    }

    pub fn new() -> (r: Self)
        ensures
            r.jobs().len() == 0,
    {
        InMemoryJobRepository { jobs: Vec::new() }
    }

    pub fn add_job(&mut self, job: Job) -> (r: QueueResult<()>)
        ensures
            r is Ok,
            final(self).jobs() == old(self).jobs().push(job),
    {
        self.jobs.push(job);
        Ok(())
    }

    /// Up to `limit` pending jobs, most urgent first.
    pub fn poll_pending_jobs(&self, limit: usize) -> (r: QueueResult<Vec<Job>>)
        ensures
            r matches Ok(v) && v@ == by_priority(pending_jobs(self.jobs())).take(
                if limit < by_priority(pending_jobs(self.jobs())).len() {
                    limit as int
                } else {
                    by_priority(pending_jobs(self.jobs())).len() as int
                },
            ),
    {
        let mut pending: Vec<Job> = Vec::new();
        let mut i: usize = 0;
        while i < self.jobs.len()
            invariant
                i <= self.jobs@.len(),
                pending@ == pending_jobs(self.jobs@.subrange(0, i as int)),
            decreases self.jobs@.len() - i,
        {
            assert(self.jobs@.subrange(0, i as int + 1).drop_last() =~= self.jobs@.subrange(0, i as int));
            if self.jobs[i].state.is_pending() {
                pending.push(self.jobs[i].clone());
            }
            i = i + 1;
        }
        assert(self.jobs@.subrange(0, i as int) =~= self.jobs@);
        let sorted = sorted_copy(&pending);
        let mut out: Vec<Job> = Vec::new();
        let mut k: usize = 0;
        while k < sorted.len() && k < limit
            invariant
                k <= sorted@.len(),
                k <= limit,
                sorted@ == by_priority(pending_jobs(self.jobs@)),
                out@ == sorted@.take(k as int),
            decreases sorted@.len() - k,
        {
            out.push(sorted[k].clone());
            k = k + 1;
            assert(out@ =~= sorted@.take(k as int));
        }
        Ok(out)
    }

    fn find(&self, job_id: &str) -> (r: Option<usize>)
        ensures
            r matches Some(i) ==> i < self.jobs().len() && first_job_index(self.jobs(), job_id@) == Some(i as int),
            r is None ==> first_job_index(self.jobs(), job_id@) is None,
    {
        let target = String::from_str(job_id);
        let mut i: usize = 0;
        while i < self.jobs.len()
            invariant
                i <= self.jobs@.len(),
                target@ == job_id@,
                forall|j: int| 0 <= j < i ==> self.jobs@[j].id@ != job_id@,
            decreases self.jobs@.len() - i,
        {
            if self.jobs[i].id == target {
                proof {
                    lemma_first_job_index(self.jobs@, job_id@, i as int);
                }
                return Some(i);
            }
            i = i + 1;
        }
        None
    }

    /// Set the state of the first job with the given id, stamping `now`.
    pub fn update_job_state_at(&mut self, job_id: &str, new_state: JobState, now: i64) -> (r: QueueResult<()>)
        ensures
            first_job_index(old(self).jobs(), job_id@) matches Some(i) ==> r is Ok && final(self).jobs()
                == old(self).jobs().update(
                i,
                Job { state: new_state, updated_at: now, ..old(self).jobs()[i] },
            ),
            first_job_index(old(self).jobs(), job_id@) is None ==> (r matches Err(QueueError::JobNotFound(m))
                && m@ == job_id@) && final(self).jobs() == old(self).jobs(),
    {
        match self.find(job_id) {
            Some(i) => {
                let mut job = self.jobs[i].clone();
                job.state = new_state;
                job.updated_at = now;
                self.jobs.set(i, job);
                Ok(())
            },
            None => Err(QueueError::JobNotFound(String::from_str(job_id))),
        }
    }

    /// Set the state of the first job with the given id, stamping the current time.
    pub fn update_job_state(&mut self, job_id: &str, new_state: JobState) -> (r: QueueResult<()>)
        ensures
            first_job_index(old(self).jobs(), job_id@) matches Some(i) ==> r is Ok && final(self).jobs()
                == old(self).jobs().update(
                i,
                Job { state: new_state, updated_at: final(self).jobs()[i].updated_at, ..old(self).jobs()[i] },
            ),
            first_job_index(old(self).jobs(), job_id@) is None ==> (r matches Err(QueueError::JobNotFound(m))
                && m@ == job_id@) && final(self).jobs() == old(self).jobs(),
    {
        proof {
            lemma_first_job_index_props(self.jobs(), job_id@);
        }
        self.update_job_state_at(job_id, new_state, now_millis())
    }

    /// A copy of the first job with the given id.
    pub fn get_job(&self, job_id: &str) -> (r: QueueResult<Option<Job>>)
        ensures
            first_job_index(self.jobs(), job_id@) matches Some(i) ==> r == Ok::<Option<Job>, QueueError>(
                Some(self.jobs()[i]),
            ),
            first_job_index(self.jobs(), job_id@) is None ==> r == Ok::<Option<Job>, QueueError>(None),
    {
        match self.find(job_id) {
            Some(i) => Ok(Some(self.jobs[i].clone())),
            None => Ok(None),
        }
    }
}

impl Default for InMemoryJobRepository {
    fn default() -> (r: Self)
        ensures
            r.jobs().len() == 0,
    {
        Self::new()
    }
}

} // verus!
