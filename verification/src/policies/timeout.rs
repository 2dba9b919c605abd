//! Phase timeouts. Times are milliseconds since the Unix epoch.
use vstd::prelude::*;

use super::errors::ConfigError;
use crate::clock::now_millis;

verus! {

/// A positive timeout for one phase.
#[derive(Debug, Clone, Copy)]
pub struct PhaseTimeout {
    duration_ms: u64,
}

/// Milliseconds from `start` to `now`.
pub open spec fn elapsed(start: i64, now: i64) -> int {
    now - start
}

impl PhaseTimeout {
    #[verifier::type_invariant]
    spec fn wf(self) -> bool {
        self.duration_ms > 0
    }

    /// The timeout in milliseconds.
    pub closed spec fn duration(self) -> u64 {
        self.duration_ms
    }

    /// A timeout of `duration_ms`; zero is refused.
    pub fn new(duration_ms: u64) -> (r: Result<Self, ConfigError>)
        ensures
            duration_ms == 0 ==> r == Err::<Self, ConfigError>(ConfigError::InvalidTimeout { duration_ms }),
            duration_ms > 0 ==> (r matches Ok(t) && t.duration() == duration_ms),
    {
        if duration_ms == 0 {
            return Err(ConfigError::InvalidTimeout { duration_ms });
        }
        Ok(PhaseTimeout { duration_ms })
    }

    pub fn duration_ms(&self) -> (r: u64)
        ensures
            r == self.duration(),
            r > 0,
    {
        proof {
            use_type_invariant(self);
        }
        self.duration_ms
    }

    /// Whether the timeout has passed at `now` for a phase started at
    /// `started_at` (the duration is compared as a signed millisecond count).
    pub fn is_expired_at(&self, started_at: i64, now: i64) -> (r: bool)
        ensures
            r == (elapsed(started_at, now) >= (self.duration() as i64) as int),
    {
        let e = (now as i128) - (started_at as i128);
        e >= (self.duration_ms as i64) as i128
    }

    /// Whether the timeout has passed for a phase started at `started_at`.
    pub fn is_expired(&self, started_at: i64) -> (r: bool)
        ensures
            exists|now: i64| r == (elapsed(started_at, now) >= (self.duration() as i64) as int),
    {
        self.is_expired_at(started_at, now_millis())
    }

    /// Milliseconds from `started_at` to `now`, or 0 when `now` is earlier.
    pub fn elapsed_ms_at(&self, started_at: i64, now: i64) -> (r: u64)
        ensures
            elapsed(started_at, now) <= 0 ==> r == 0,
            elapsed(started_at, now) > 0 ==> r == elapsed(started_at, now),
    {
        if now <= started_at {
            0
        } else {
            let e = (now as i128) - (started_at as i128);
            e as u64
        }
    }

    /// Milliseconds since `started_at`, or 0 when it lies in the future.
    pub fn elapsed_ms(&self, started_at: i64) -> (r: u64)
        ensures
            exists|now: i64|
                (elapsed(started_at, now) <= 0 ==> r == 0) && (elapsed(started_at, now) > 0 ==> r == elapsed(
                    started_at,
                    now,
                )),
    {
        self.elapsed_ms_at(started_at, now_millis())
    }
}

} // verus!
