//! Circuit breaker: stops calling a failing phase for a while.
//!
//! Closed counts consecutive failures and opens at the failure threshold.
//! Open refuses requests until the open duration has passed since the last
//! failure, then lets requests through half-open. Half-open closes after the
//! success threshold of consecutive successes and reopens on any failure.
//! Times are milliseconds since the Unix epoch.
use vstd::prelude::*;

use super::errors::ConfigError;
use crate::clock::now_millis;

verus! {

/// Circuit breaker states.
#[derive(Debug, Clone, Copy, PartialEq, Eq, Structural, Hash)]
pub enum CircuitBreakerState {
    /// Normal operation; requests are allowed.
    Closed,
    /// Too many failures; requests are refused.
    Open,
    /// Testing whether the phase recovered.
    HalfOpen,
}

/// Configuration and state of a circuit breaker.
#[derive(Debug, Clone, Copy, PartialEq, Eq, Structural)]
pub struct CircuitBreaker {
    state: CircuitBreakerState,
    failure_threshold: u32,
    success_threshold: u32,
    open_duration_ms: u64,
    failure_count: u32,
    success_count: u32,
    last_failure_at: Option<i64>,
}

/// Why a circuit breaker cannot be created.
#[derive(Debug, Clone, Copy, PartialEq, Eq, Structural)]
pub enum CircuitBreakerError {
    InvalidFailureThreshold,
    InvalidSuccessThreshold,
    InvalidOpenDuration,
}

impl CircuitBreakerError {
    /// The message a user sees for this error.
    pub fn to_string(&self) -> (s: String)
        ensures
            s@ == match *self {
                CircuitBreakerError::InvalidFailureThreshold => "failure_threshold must be positive"@,
                CircuitBreakerError::InvalidSuccessThreshold => "success_threshold must be positive"@,
                CircuitBreakerError::InvalidOpenDuration => "open_duration must be greater than 0"@,
            },
    {
        match self {
            CircuitBreakerError::InvalidFailureThreshold => String::from_str(
                "failure_threshold must be positive",
            ),
            CircuitBreakerError::InvalidSuccessThreshold => String::from_str(
                "success_threshold must be positive",
            ),
            CircuitBreakerError::InvalidOpenDuration => String::from_str(
                "open_duration must be greater than 0",
            ),
        }
    }
}

/// Whether an open breaker with last failure `last` may let a request
/// through at `now`: the open duration (as a signed millisecond count) has
/// passed since the last failure.
pub open spec fn recovery_due(last: Option<i64>, open_duration_ms: u64, now: i64) -> bool {
    match last {
        Some(t) => now - t >= (open_duration_ms as i64) as int,
        None => false,
    }
}

impl CircuitBreaker {
    #[verifier::type_invariant]
    spec fn wf(self) -> bool {
        &&& self.failure_threshold > 0
        &&& self.success_threshold > 0
        &&& self.open_duration_ms > 0
        &&& self.failure_count <= self.failure_threshold
        &&& self.state == CircuitBreakerState::Closed ==> self.failure_count < self.failure_threshold
        &&& self.success_count < self.success_threshold
    }

    pub closed spec fn cb_state(self) -> CircuitBreakerState {
        self.state
    }

    pub closed spec fn failures(self) -> u32 {
        self.failure_count
    }

    pub closed spec fn successes(self) -> u32 {
        self.success_count
    }

    pub closed spec fn failure_limit(self) -> u32 {
        self.failure_threshold
    }

    pub closed spec fn success_limit(self) -> u32 {
        self.success_threshold
    }

    pub closed spec fn open_ms(self) -> u64 {
        self.open_duration_ms
    }

    pub closed spec fn last_failure(self) -> Option<i64> {
        self.last_failure_at
    }

    /// What every breaker keeps: positive thresholds and open duration, a
    /// closed breaker below its failure threshold, and a success count below
    /// the success threshold.
    pub open spec fn valid(self) -> bool {
        &&& self.failure_limit() > 0
        &&& self.success_limit() > 0
        &&& self.open_ms() > 0
        &&& self.failures() <= self.failure_limit()
        &&& self.cb_state() == CircuitBreakerState::Closed ==> self.failures() < self.failure_limit()
        &&& self.successes() < self.success_limit()
    }

    /// The breaker after a success.
    pub closed spec fn after_success(self) -> Self {
        match self.state {
            CircuitBreakerState::Closed => CircuitBreaker { failure_count: 0, ..self },
            CircuitBreakerState::HalfOpen => if self.success_count + 1 >= self.success_threshold {
                CircuitBreaker {
                    state: CircuitBreakerState::Closed,
                    failure_count: 0,
                    success_count: 0,
                    ..self
                }
            } else {
                CircuitBreaker { success_count: (self.success_count + 1) as u32, ..self }
            },
            CircuitBreakerState::Open => self,
        }
    }

    /// The breaker after a failure at `now`.
    pub closed spec fn after_failure(self, now: i64) -> Self {
        let b = CircuitBreaker { last_failure_at: Some(now), ..self };
        match self.state {
            CircuitBreakerState::Closed => if self.failure_count + 1 >= self.failure_threshold {
                CircuitBreaker {
                    state: CircuitBreakerState::Open,
                    failure_count: (self.failure_count + 1) as u32,
                    ..b
                }
            } else {
                CircuitBreaker { failure_count: (self.failure_count + 1) as u32, ..b }
            },
            CircuitBreakerState::HalfOpen => CircuitBreaker {
                state: CircuitBreakerState::Open,
                success_count: 0,
                ..b
            },
            CircuitBreakerState::Open => b,
        }
    }

    /// The breaker closed with both counters cleared.
    pub closed spec fn cleared(self) -> Self {
        CircuitBreaker { state: CircuitBreakerState::Closed, failure_count: 0, success_count: 0, ..self }
    }

    /// The breaker moved to half-open with no successes counted.
    pub closed spec fn half_opened(self) -> Self {
        CircuitBreaker { state: CircuitBreakerState::HalfOpen, success_count: 0, ..self }
    }

    /// A breaker that opens after `failure_threshold` consecutive failures,
    /// closes after `success_threshold` consecutive successes in half-open,
    /// and stays open for `open_duration_ms`; all three must be positive.
    pub fn new(failure_threshold: u32, success_threshold: u32, open_duration_ms: u64) -> (r: Result<Self, CircuitBreakerError>)
        ensures
            failure_threshold == 0 ==> r == Err::<Self, CircuitBreakerError>(
                CircuitBreakerError::InvalidFailureThreshold,
            ),
            failure_threshold > 0 && success_threshold == 0 ==> r == Err::<Self, CircuitBreakerError>(
                CircuitBreakerError::InvalidSuccessThreshold,
            ),
            failure_threshold > 0 && success_threshold > 0 && open_duration_ms == 0 ==> r == Err::<
                Self,
                CircuitBreakerError,
            >(CircuitBreakerError::InvalidOpenDuration),
            failure_threshold > 0 && success_threshold > 0 && open_duration_ms > 0 ==> (r matches Ok(
                b,
            ) && b.cb_state() == CircuitBreakerState::Closed && b.failures() == 0 && b.successes() == 0
                && b.failure_limit() == failure_threshold && b.success_limit() == success_threshold
                && b.open_ms() == open_duration_ms && b.last_failure() is None),
    {
        if failure_threshold == 0 {
            return Err(CircuitBreakerError::InvalidFailureThreshold);
        }
        if success_threshold == 0 {
            return Err(CircuitBreakerError::InvalidSuccessThreshold);
        }
        if open_duration_ms == 0 {
            return Err(CircuitBreakerError::InvalidOpenDuration);
        }
        Ok(
            CircuitBreaker {
                state: CircuitBreakerState::Closed,
                failure_threshold,
                success_threshold,
                open_duration_ms,
                failure_count: 0,
                success_count: 0,
                last_failure_at: None,
            },
        )
    }

    /// A breaker that closes after one success in half-open.
    pub fn with_recovery_timeout(failure_threshold: u32, recovery_timeout_ms: u64) -> (r: Result<Self, ConfigError>)
        ensures
            failure_threshold == 0 ==> r == Err::<Self, ConfigError>(
                ConfigError::InvalidFailureThreshold { threshold: failure_threshold },
            ),
            failure_threshold > 0 && recovery_timeout_ms == 0 ==> r == Err::<Self, ConfigError>(
                ConfigError::InvalidRecoveryTimeout { timeout_ms: recovery_timeout_ms },
            ),
            failure_threshold > 0 && recovery_timeout_ms > 0 ==> (r matches Ok(b) && b.cb_state()
                == CircuitBreakerState::Closed && b.failures() == 0 && b.successes() == 0
                && b.failure_limit() == failure_threshold && b.success_limit() == 1 && b.open_ms()
                == recovery_timeout_ms && b.last_failure() is None),
    {
        match CircuitBreaker::new(failure_threshold, 1, recovery_timeout_ms) {
            Ok(b) => Ok(b),
            Err(CircuitBreakerError::InvalidFailureThreshold) => Err(
                ConfigError::InvalidFailureThreshold { threshold: failure_threshold },
            ),
            Err(CircuitBreakerError::InvalidSuccessThreshold) => Err(
                ConfigError::InvalidFailureThreshold { threshold: 0 },
            ),
            Err(CircuitBreakerError::InvalidOpenDuration) => Err(
                ConfigError::InvalidRecoveryTimeout { timeout_ms: recovery_timeout_ms },
            ),
        }
    }

    pub fn state(&self) -> (r: CircuitBreakerState)
        ensures
            r == self.cb_state(),
            self.valid(),
    {
        proof {
            use_type_invariant(self);
        }
        self.state
    }

    pub fn failure_count(&self) -> (r: u32)
        ensures
            r == self.failures(),
            self.valid(),
    {
        proof {
            use_type_invariant(self);
        }
        self.failure_count
    }

    pub fn success_count(&self) -> (r: u32)
        ensures
            r == self.successes(),
            self.valid(),
    {
        proof {
            use_type_invariant(self);
        }
        self.success_count
    }

    pub fn failure_threshold(&self) -> (r: u32)
        ensures
            r == self.failure_limit(),
            r > 0,
    {
        proof {
            use_type_invariant(self);
        }
        self.failure_threshold
    }

    pub fn success_threshold(&self) -> (r: u32)
        ensures
            r == self.success_limit(),
            r > 0,
    {
        proof {
            use_type_invariant(self);
        }
        self.success_threshold
    }

    /// How long the breaker stays open, in milliseconds.
    pub fn open_duration(&self) -> (r: u64)
        ensures
            r == self.open_ms(),
            r > 0,
    {
        proof {
            use_type_invariant(self);
        }
        self.open_duration_ms
    }

    /// The time of the last failure, if any.
    pub fn last_failure_at(&self) -> (r: Option<i64>)
        ensures
            r == self.last_failure(),
    {
        self.last_failure_at
    }

    /// Record a success.
    pub fn record_success(&mut self)
        ensures
            *final(self) == old(self).after_success(),
            final(self).valid(),
    {
        proof {
            use_type_invariant(&*self);
        }
        let b = *self;
        *self = match b.state {
            CircuitBreakerState::Closed => CircuitBreaker { failure_count: 0, ..b },
            CircuitBreakerState::HalfOpen => {
                if b.success_count + 1 >= b.success_threshold {
                    CircuitBreaker {
                        state: CircuitBreakerState::Closed,
                        failure_count: 0,
                        success_count: 0,
                        ..b
                    }
                } else {
                    CircuitBreaker { success_count: b.success_count + 1, ..b }
                }
            },
            CircuitBreakerState::Open => b,
        };
    }

    /// Record a failure at `now`.
    pub fn record_failure_at(&mut self, now: i64)
        ensures
            *final(self) == old(self).after_failure(now),
            final(self).valid(),
    {
        proof {
            use_type_invariant(&*self);
        }
        let b = *self;
        *self = match b.state {
            CircuitBreakerState::Closed => {
                let count = b.failure_count + 1;
                if count >= b.failure_threshold {
                    CircuitBreaker {
                        state: CircuitBreakerState::Open,
                        failure_count: count,
                        last_failure_at: Some(now),
                        ..b
                    }
                } else {
                    CircuitBreaker { failure_count: count, last_failure_at: Some(now), ..b }
                }
            },
            CircuitBreakerState::HalfOpen => CircuitBreaker {
                state: CircuitBreakerState::Open,
                success_count: 0,
                last_failure_at: Some(now),
                ..b
            },
            CircuitBreakerState::Open => CircuitBreaker { last_failure_at: Some(now), ..b },
        };
    }

    /// Record a failure now.
    pub fn record_failure(&mut self)
        ensures
            exists|now: i64| *final(self) == old(self).after_failure(now),
            final(self).valid(),
    {
        self.record_failure_at(now_millis());
    }

    fn recovery_due_at(&self, now: i64) -> (r: bool)
        ensures
            r == recovery_due(self.last_failure(), self.open_ms(), now),
    {
        match self.last_failure_at {
            Some(t) => (now as i128) - (t as i128) >= (self.open_duration_ms as i64) as i128,
            None => false,
        }
    }

    /// Whether a request may run at `now`. An open breaker whose open
    /// duration has passed since the last failure moves to half-open and
    /// lets the request through.
    pub fn can_execute_at(&mut self, now: i64) -> (r: bool)
        ensures
            old(self).cb_state() != CircuitBreakerState::Open ==> r && *final(self) == *old(self),
            old(self).cb_state() == CircuitBreakerState::Open ==> r == recovery_due(
                old(self).last_failure(),
                old(self).open_ms(),
                now,
            ) && *final(self) == if r {
                old(self).half_opened()
            } else {
                *old(self)
            },
            final(self).valid(),
    {
        proof {
            use_type_invariant(&*self);
        }
        match self.state {
            CircuitBreakerState::Closed | CircuitBreakerState::HalfOpen => true,
            CircuitBreakerState::Open => {
                if self.recovery_due_at(now) {
                    self.open_half();
                    true
                } else {
                    false
                }
            },
        }
    }

    /// Whether a request may run now (see `can_execute_at`): for the time
    /// `now` read from the clock, an open breaker lets a request through
    /// exactly when the open duration has passed since the last failure.
    pub fn can_execute(&mut self) -> (r: bool)
        ensures
            old(self).cb_state() != CircuitBreakerState::Open ==> r && *final(self) == *old(self),
            old(self).cb_state() == CircuitBreakerState::Open ==> exists|now: i64|
                r == recovery_due(old(self).last_failure(), old(self).open_ms(), now),
            old(self).cb_state() == CircuitBreakerState::Open ==> *final(self) == if r {
                old(self).half_opened()
            } else {
                *old(self)
            },
            final(self).valid(),
    {
        let now = now_millis();
        self.can_execute_at(now)
    }

    /// Whether the state alone allows a request (closed or half-open).
    pub fn is_execution_allowed(&self) -> (r: bool)
        ensures
            r == (self.cb_state() != CircuitBreakerState::Open),
    {
        match self.state {
            CircuitBreakerState::Closed | CircuitBreakerState::HalfOpen => true,
            CircuitBreakerState::Open => false,
        }
    }

    /// Move from open to half-open when `elapsed_ms` reaches the open
    /// duration; returns whether it moved.
    pub fn check_and_transition(&mut self, elapsed_ms: u64) -> (r: bool)
        ensures
            r == (old(self).cb_state() == CircuitBreakerState::Open && elapsed_ms >= old(self).open_ms()),
            *final(self) == if r {
                old(self).half_opened()
            } else {
                *old(self)
            },
            final(self).valid(),
    {
        proof {
            use_type_invariant(&*self);
        }
        if self.state == CircuitBreakerState::Open && elapsed_ms >= self.open_duration_ms {
            self.open_half();
            return true;
        }
        false
    }

    /// Whether, at `now`, the breaker is open and the open duration has
    /// passed since the last failure.
    pub open spec fn half_open_due(self, now: i64) -> bool {
        self.cb_state() == CircuitBreakerState::Open && recovery_due(self.last_failure(), self.open_ms(), now)
    }

    /// Move from open to half-open when, at `now`, the open duration has
    /// passed since the last failure; returns whether it moved.
    pub fn try_transition_to_half_open_at(&mut self, now: i64) -> (r: bool)
        ensures
            r == (old(self).cb_state() == CircuitBreakerState::Open && recovery_due(
                old(self).last_failure(),
                old(self).open_ms(),
                now,
            )),
            *final(self) == if r {
                old(self).half_opened()
            } else {
                *old(self)
            },
            final(self).valid(),
    {
        proof {
            use_type_invariant(&*self);
        }
        if self.state == CircuitBreakerState::Open && self.recovery_due_at(now) {
            self.open_half();
            return true;
        }
        false
    }

    /// `try_transition_to_half_open_at` at the current time: for the time
    /// `now` read from the clock, it moves exactly when the breaker is open
    /// and the open duration has passed since the last failure.
    pub fn try_transition_to_half_open(&mut self) -> (r: bool)
        ensures
            exists|now: i64| r == old(self).half_open_due(now),
            *final(self) == if r {
                old(self).half_opened()
            } else {
                *old(self)
            },
            final(self).valid(),
    {
        let now = now_millis();
        let r = self.try_transition_to_half_open_at(now);
        assert(r == old(self).half_open_due(now));
        r
    }

    /// Back to closed with both counters cleared.
    pub fn reset(&mut self)
        ensures
            *final(self) == old(self).cleared(),
            final(self).valid(),
    {
        proof {
            use_type_invariant(&*self);
        }
        let b = *self;
        *self = CircuitBreaker {
            state: CircuitBreakerState::Closed,
            failure_count: 0,
            success_count: 0,
            ..b
        };
    }

    fn open_half(&mut self)
        ensures
            *final(self) == old(self).half_opened(),
    {
        proof {
            use_type_invariant(&*self);
        }
        let b = *self;
        *self = CircuitBreaker { state: CircuitBreakerState::HalfOpen, success_count: 0, ..b };
    }
}

/// `b` after `n` failures at time `now`.
pub open spec fn fail_times(b: CircuitBreaker, n: nat, now: i64) -> CircuitBreaker
    decreases n,
{
    if n == 0 {
        b
    } else {
        fail_times(b, (n - 1) as nat, now).after_failure(now)
    }
}

/// `b` after `n` successes.
pub open spec fn succeed_times(b: CircuitBreaker, n: nat) -> CircuitBreaker
    decreases n,
{
    if n == 0 {
        b
    } else {
        succeed_times(b, (n - 1) as nat).after_success()
    }
}

/// Two breakers with the same state, counters, thresholds, open duration and
/// last failure are the same breaker.
pub proof fn lemma_breaker_ext(a: CircuitBreaker, b: CircuitBreaker)
    requires
        a.cb_state() == b.cb_state(),
        a.failures() == b.failures(),
        a.successes() == b.successes(),
        a.failure_limit() == b.failure_limit(),
        a.success_limit() == b.success_limit(),
        a.open_ms() == b.open_ms(),
        a.last_failure() == b.last_failure(),
    ensures
        a == b,
{
}

/// What a success does. Closed: the failure count is cleared. Half-open:
/// the success count grows, and at the success threshold the breaker closes
/// with both counters cleared. Open: nothing changes. The configuration and
/// the last failure time never change.
pub proof fn lemma_after_success(b: CircuitBreaker)
    ensures
        b.after_success().failure_limit() == b.failure_limit(),
        b.after_success().success_limit() == b.success_limit(),
        b.after_success().open_ms() == b.open_ms(),
        b.after_success().last_failure() == b.last_failure(),
        b.cb_state() == CircuitBreakerState::Closed ==> b.after_success().cb_state()
            == CircuitBreakerState::Closed && b.after_success().failures() == 0
            && b.after_success().successes() == b.successes(),
        b.cb_state() == CircuitBreakerState::HalfOpen && b.successes() + 1 >= b.success_limit()
            ==> b.after_success().cb_state() == CircuitBreakerState::Closed
            && b.after_success().failures() == 0 && b.after_success().successes() == 0,
        b.cb_state() == CircuitBreakerState::HalfOpen && b.successes() + 1 < b.success_limit()
            ==> b.after_success().cb_state() == CircuitBreakerState::HalfOpen
            && b.after_success().successes() == b.successes() + 1 && b.after_success().failures()
            == b.failures(),
        b.cb_state() == CircuitBreakerState::Open ==> b.after_success() == b,
{
}

/// What a failure at `now` does: the last failure time becomes `now`.
/// Closed: the failure count grows, and the breaker opens exactly when it
/// reaches the failure threshold. Half-open: the breaker opens again with
/// the success count cleared. Open: only the time changes. The configuration
/// never changes.
pub proof fn lemma_after_failure(b: CircuitBreaker, now: i64)
    requires
        b.valid(),
    ensures
        b.after_failure(now).last_failure() == Some(now),
        b.after_failure(now).failure_limit() == b.failure_limit(),
        b.after_failure(now).success_limit() == b.success_limit(),
        b.after_failure(now).open_ms() == b.open_ms(),
        b.cb_state() == CircuitBreakerState::Closed ==> b.after_failure(now).failures()
            == b.failures() + 1 && b.after_failure(now).successes() == b.successes()
            && b.after_failure(now).cb_state() == (if b.failures() + 1 >= b.failure_limit() {
            CircuitBreakerState::Open
        } else {
            CircuitBreakerState::Closed
        }),
        b.cb_state() == CircuitBreakerState::HalfOpen ==> b.after_failure(now).cb_state()
            == CircuitBreakerState::Open && b.after_failure(now).successes() == 0
            && b.after_failure(now).failures() == b.failures(),
        b.cb_state() == CircuitBreakerState::Open ==> b.after_failure(now).cb_state()
            == CircuitBreakerState::Open && b.after_failure(now).failures() == b.failures()
            && b.after_failure(now).successes() == b.successes(),
{
}

/// Moving to half-open counts no successes and changes nothing else.
pub proof fn lemma_half_opened(b: CircuitBreaker)
    ensures
        b.half_opened().cb_state() == CircuitBreakerState::HalfOpen,
        b.half_opened().successes() == 0,
        b.half_opened().failures() == b.failures(),
        b.half_opened().failure_limit() == b.failure_limit(),
        b.half_opened().success_limit() == b.success_limit(),
        b.half_opened().open_ms() == b.open_ms(),
        b.half_opened().last_failure() == b.last_failure(),
{
}

/// A reset closes the breaker with both counters cleared and changes
/// nothing else.
pub proof fn lemma_cleared(b: CircuitBreaker)
    ensures
        b.cleared().cb_state() == CircuitBreakerState::Closed,
        b.cleared().failures() == 0,
        b.cleared().successes() == 0,
        b.cleared().failure_limit() == b.failure_limit(),
        b.cleared().success_limit() == b.success_limit(),
        b.cleared().open_ms() == b.open_ms(),
        b.cleared().last_failure() == b.last_failure(),
{
}

/// A closed breaker with `k` failures counted stays closed, counting, while
/// fewer than `failure_threshold` failures in a row have been seen, and
/// opens exactly when the count reaches the threshold.
pub proof fn lemma_opens_at_failure_threshold(b: CircuitBreaker, n: nat, now: i64)
    requires
        b.valid(),
        b.cb_state() == CircuitBreakerState::Closed,
        b.failures() + n <= b.failure_limit(),
    ensures
        fail_times(b, n, now).failures() == b.failures() + n,
        fail_times(b, n, now).failure_limit() == b.failure_limit(),
        fail_times(b, n, now).valid(),
        b.failures() + n < b.failure_limit() ==> fail_times(b, n, now).cb_state()
            == CircuitBreakerState::Closed,
        b.failures() + n == b.failure_limit() ==> fail_times(b, n, now).cb_state()
            == CircuitBreakerState::Open,
    decreases n,
{
    if n > 0 {
        lemma_opens_at_failure_threshold(b, (n - 1) as nat, now);
    }
}

/// A half-open breaker with `k` successes counted stays half-open while
/// fewer than `success_threshold` successes in a row have been seen, and
/// closes with both counters cleared exactly when the count reaches the
/// threshold.
pub proof fn lemma_closes_at_success_threshold(b: CircuitBreaker, n: nat)
    requires
        b.valid(),
        b.cb_state() == CircuitBreakerState::HalfOpen,
        b.successes() + n <= b.success_limit(),
    ensures
        succeed_times(b, n).valid(),
        succeed_times(b, n).success_limit() == b.success_limit(),
        b.successes() + n < b.success_limit() ==> succeed_times(b, n).cb_state()
            == CircuitBreakerState::HalfOpen && succeed_times(b, n).successes() == b.successes() + n,
        b.successes() + n == b.success_limit() ==> succeed_times(b, n).cb_state()
            == CircuitBreakerState::Closed && succeed_times(b, n).successes() == 0 && succeed_times(
            b,
            n,
        ).failures() == 0,
    decreases n,
{
    if n > 0 {
        lemma_closes_at_success_threshold(b, (n - 1) as nat);
    }
}

/// Successes, failures, moving to half-open and resetting keep what every
/// breaker keeps.
pub proof fn lemma_transitions_keep_valid(b: CircuitBreaker, now: i64)
    requires
        b.valid(),
    ensures
        b.after_success().valid(),
        b.after_failure(now).valid(),
        b.half_opened().valid(),
        b.cleared().valid(),
{
}

} // verus!
