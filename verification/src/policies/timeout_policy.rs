//! Timeout policy: an optional, positive timeout.
use vstd::prelude::*;

verus! {

/// An optional phase timeout; when present it is positive.
#[derive(Debug, Clone, Copy, PartialEq, Eq, Structural)]
pub struct TimeoutPolicy {
    timeout_ms: Option<u64>,
}

impl TimeoutPolicy {
    #[verifier::type_invariant]
    spec fn wf(self) -> bool {
        self.timeout_ms matches Some(t) ==> t > 0
    }

    /// The configured timeout.
    pub closed spec fn timeout(self) -> Option<u64> {
        self.timeout_ms
    }

    /// A policy with the given timeout; a zero timeout is refused.
    pub fn new(timeout_ms: u64) -> (r: Result<Self, TimeoutPolicyError>)
        ensures
            timeout_ms == 0 ==> r == Err::<Self, TimeoutPolicyError>(TimeoutPolicyError::ZeroTimeout),
            timeout_ms > 0 ==> (r matches Ok(p) && p.timeout() == Some(timeout_ms)),
    {
        if timeout_ms == 0 {
            return Err(TimeoutPolicyError::ZeroTimeout);
        }
        Ok(TimeoutPolicy { timeout_ms: Some(timeout_ms) })
    }

    /// A policy without a timeout.
    pub fn none() -> (p: Self)
        ensures
            p.timeout() is None,
    {
        TimeoutPolicy { timeout_ms: None }
    }

    pub fn get_timeout_ms(&self) -> (r: Option<u64>)
        ensures
            r == self.timeout(),
            r matches Some(t) ==> t > 0,
    {
        proof {
            use_type_invariant(self);
        }
        self.timeout_ms
    }

    pub fn is_none(&self) -> (r: bool)
        ensures
            r == self.timeout() is None,
    {
        self.timeout_ms.is_none()
    }
}

/// A policy is determined by its timeout: two policies are equal exactly
/// when their timeouts are.
pub proof fn lemma_policy_is_its_timeout(p: TimeoutPolicy, q: TimeoutPolicy)
    ensures
        (p == q) <==> (p.timeout() == q.timeout()),
{
}

/// Why a timeout policy cannot be created.
#[derive(Debug, Clone, Copy, PartialEq, Eq, Structural)]
pub enum TimeoutPolicyError {
    ZeroTimeout,
}

impl TimeoutPolicyError {
    /// The message a user sees for this error.
    pub fn to_string(&self) -> (s: String)
        ensures
            s@ == "timeout must be greater than 0ms"@,
    {
        String::from_str("timeout must be greater than 0ms")
    }
}

} // verus!
