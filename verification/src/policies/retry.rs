//! Retry policy with exponential backoff: the delay before retry `n` is
//! `base * 2^n`, capped at a maximum (saturating at the largest `u64`).
use vstd::prelude::*;
use vstd::arithmetic::power2::{lemma2_to64, lemma2_to64_rest, lemma_pow2_strictly_increases, lemma_pow2_unfold, pow2};

use super::errors::ConfigError;

verus! {

/// `x`, or the largest `u64` when `x` does not fit.
pub open spec fn saturate(x: int) -> int {
    if x > u64::MAX {
        u64::MAX as int
    } else {
        x
    }
}

/// The backoff delay before retry `attempt`: `base * 2^attempt` with both
/// the power and the product saturating, capped at `max`.
pub open spec fn backoff_delay(base: u64, max: u64, attempt: nat) -> int {
    let d = saturate(base * saturate(pow2(attempt) as int));
    if d <= max {
        d
    } else {
        max as int
    }
}

/// Retry policy configuration with exponential backoff.
#[derive(Debug, Clone, Copy, PartialEq, Eq, Structural)]
pub struct RetryPolicy {
    max_retries: u32,
    base_delay_ms: u64,
    max_delay_ms: u64,
}

/// `2^attempt`, saturating at the largest `u64`.
fn saturating_pow2(attempt: u32) -> (r: u64)
    ensures
        r == saturate(pow2(attempt as nat) as int),
{
    proof {
        lemma2_to64();
        lemma2_to64_rest();
    }
    if attempt >= 64 {
        proof {
            if attempt > 64 {
                lemma_pow2_strictly_increases(64, attempt as nat);
            }
        }
        return u64::MAX;
    }
    let mut f: u64 = 1;
    let mut i: u32 = 0;
    while i < attempt
        invariant
            i <= attempt < 64,
            f == pow2(i as nat),
            pow2(63) == 0x8000000000000000,
        decreases attempt - i,
    {
        proof {
            lemma_pow2_unfold((i + 1) as nat);
            if i + 1 < 63 {
                lemma_pow2_strictly_increases((i + 1) as nat, 63);
            }
        }
        f = f * 2;
        i = i + 1;
    }
    f
}

impl RetryPolicy {
    #[verifier::type_invariant]
    spec fn wf(self) -> bool {
        0 < self.base_delay_ms <= self.max_delay_ms
    }

    pub closed spec fn retries(self) -> u32 {
        self.max_retries
    }

    pub closed spec fn base_delay(self) -> u64 {
        self.base_delay_ms
    }

    pub closed spec fn max_delay(self) -> u64 {
        self.max_delay_ms
    }

    /// A policy; the base delay must be positive and at most the maximum delay.
    pub fn new(max_retries: u32, base_delay_ms: u64, max_delay_ms: u64) -> (r: Result<Self, ConfigError>)
        ensures
            base_delay_ms == 0 ==> r == Err::<Self, ConfigError>(
                ConfigError::InvalidBaseDelay { delay_ms: base_delay_ms },
            ),
            base_delay_ms > 0 && max_delay_ms < base_delay_ms ==> r == Err::<Self, ConfigError>(
                ConfigError::InvalidMaxDelay { max_delay_ms, base_delay_ms },
            ),
            0 < base_delay_ms <= max_delay_ms ==> (r matches Ok(p) && p.retries() == max_retries
                && p.base_delay() == base_delay_ms && p.max_delay() == max_delay_ms),
    {
        if base_delay_ms == 0 {
            return Err(ConfigError::InvalidBaseDelay { delay_ms: base_delay_ms });
        }
        if max_delay_ms < base_delay_ms {
            return Err(ConfigError::InvalidMaxDelay { max_delay_ms, base_delay_ms });
        }
        Ok(RetryPolicy { max_retries, base_delay_ms, max_delay_ms })
    }

    pub fn max_retries(&self) -> (r: u32)
        ensures
            r == self.retries(),
    {
        self.max_retries
    }

    /// The delay before retry `attempt`: `min(base * 2^attempt, max)`.
    pub fn calculate_delay(&self, attempt: u32) -> (r: u64)
        ensures
            r == backoff_delay(self.base_delay(), self.max_delay(), attempt as nat),
    {
        let factor = saturating_pow2(attempt);
        let exponential = match self.base_delay_ms.checked_mul(factor) {
            Some(d) => d,
            None => u64::MAX,
        };
        if exponential <= self.max_delay_ms {
            exponential
        } else {
            self.max_delay_ms
        }
    }

    /// The number of attempts: the first one and the retries.
    pub fn total_attempts(&self) -> (r: u32)
        requires
            self.retries() < u32::MAX,
        ensures
            r == self.retries() + 1,
    {
        self.max_retries + 1
    }
}

/// Backoff delays never shrink from one retry to the next, never exceed the
/// maximum, and the first retry waits the base delay (when it is at most the
/// maximum).
pub proof fn lemma_backoff_monotone(base: u64, max: u64, a1: nat, a2: nat)
    requires
        a1 <= a2,
    ensures
        backoff_delay(base, max, a1) <= backoff_delay(base, max, a2),
        backoff_delay(base, max, a2) <= max,
        base <= max ==> backoff_delay(base, max, 0) == base,
{
    lemma2_to64();
    assert(pow2(0) == 1);
    assert(saturate(pow2(0) as int) == 1);
    assert(base * 1 == base);
    if a1 < a2 {
        lemma_pow2_strictly_increases(a1, a2);
    }
    let p1 = saturate(pow2(a1) as int);
    let p2 = saturate(pow2(a2) as int);
    assert(p1 <= p2);
    assert(base * p1 <= base * p2) by (nonlinear_arith)
        requires
            p1 <= p2,
            base >= 0,
    ;
}

} // verus!
