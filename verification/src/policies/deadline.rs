//! Global pipeline deadlines. Times are milliseconds since the Unix epoch.
use vstd::prelude::*;

use crate::clock::now_millis;

verus! {

/// Whether a deadline at `instant` has passed at `now`.
pub open spec fn exceeded_at(instant: i64, now: i64) -> bool {
    now > instant
}

/// Milliseconds left at `now` before a deadline at `instant`: 0 once it has
/// passed, and at most the largest `i64`.
pub open spec fn remaining_at(instant: i64, now: i64) -> i64 {
    if instant <= now {
        0
    } else if instant - now > i64::MAX {
        i64::MAX
    } else {
        (instant - now) as i64
    }
}

/// An absolute deadline.
#[derive(Debug, Clone, Copy, PartialEq, Eq, Structural)]
pub struct Deadline {
    deadline_at: i64,
}

/// `now + duration_ms`, saturating at the largest time that can be held.
pub open spec fn deadline_after(now: i64, duration_ms: u64) -> i64 {
    if now + duration_ms > i64::MAX {
        i64::MAX
    } else {
        (now + duration_ms) as i64
    }
}

impl Deadline {
    /// The deadline instant.
    pub closed spec fn instant(self) -> i64 {
        self.deadline_at
    }

    /// A deadline `duration_ms` after `now`.
    pub fn from_now_at(duration_ms: u64, now: i64) -> (d: Self)
        ensures
            d.instant() == deadline_after(now, duration_ms),
    {
        let sum = (now as i128) + (duration_ms as i128);
        let at = if sum > i64::MAX as i128 {
            i64::MAX
        } else {
            sum as i64
        };
        Deadline { deadline_at: at }
    }

    /// A deadline `duration_ms` from now.
    pub fn from_now(duration_ms: u64) -> (d: Self)
        ensures
            exists|now: i64| d.instant() == deadline_after(now, duration_ms),
    {
        Deadline::from_now_at(duration_ms, now_millis())
    }

    /// A deadline at a given instant.
    pub fn at(deadline_at: i64) -> (d: Self)
        ensures
            d.instant() == deadline_at,
    {
        Deadline { deadline_at }
    }

    pub fn deadline_at(&self) -> (r: i64)
        ensures
            r == self.instant(),
    {
        self.deadline_at
    }

    /// Whether the deadline has passed at `now`.
    pub fn is_exceeded_at(&self, now: i64) -> (r: bool)
        ensures
            r == (now > self.instant()),
    {
        now > self.deadline_at
    }

    /// Whether the deadline has passed at the time `now` read from the clock.
    pub fn is_exceeded(&self) -> (r: bool)
        ensures
            exists|now: i64| r == exceeded_at(self.instant(), now),
            self.instant() == i64::MAX ==> !r,
    {
        let now = now_millis();
        let r = self.is_exceeded_at(now);
        assert(r == exceeded_at(self.instant(), now));
        r
    }

    /// Milliseconds left at `now`; 0 once the deadline has passed (the count
    /// saturates at the largest `i64`).
    pub fn remaining_ms_at(&self, now: i64) -> (r: i64)
        ensures
            self.instant() <= now ==> r == 0,
            self.instant() > now && self.instant() - now <= i64::MAX ==> r == self.instant() - now,
            self.instant() > now && self.instant() - now > i64::MAX ==> r == i64::MAX,
    {
        if self.deadline_at <= now {
            0
        } else {
            let d = (self.deadline_at as i128) - (now as i128);
            if d > i64::MAX as i128 {
                i64::MAX
            } else {
                d as i64
            }
        }
    }

    /// Milliseconds left at the time `now` read from the clock; 0 once the
    /// deadline has passed (the count saturates at the largest `i64`).
    pub fn remaining_ms(&self) -> (r: i64)
        ensures
            r >= 0,
            exists|now: i64| r == remaining_at(self.instant(), now),
    {
        let now = now_millis();
        let r = self.remaining_ms_at(now);
        assert(r == remaining_at(self.instant(), now));
        r
    }
}

} // verus!
