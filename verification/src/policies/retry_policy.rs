//! The parts of the configurable retry policy that involve no fractional
//! factor: its errors, the checks of its delays, and which errors it retries.
use vstd::prelude::*;

verus! {

/// Why a retry policy cannot be created.
#[derive(Debug, Clone, Copy, PartialEq, Eq, Structural)]
pub enum RetryPolicyError {
    InvalidBaseDelay,
    InvalidFactor,
    InvalidMaxDelay,
}

impl RetryPolicyError {
    /// The message a user sees for this error.
    pub fn to_string(&self) -> (s: String)
        ensures
            s@ == match *self {
                RetryPolicyError::InvalidBaseDelay => "base_delay must be greater than 0ms"@,
                RetryPolicyError::InvalidFactor => "factor must be greater than 1.0"@,
                RetryPolicyError::InvalidMaxDelay => "max_delay must be greater than 0ms and >= base_delay"@,
            },
    {
        match self {
            RetryPolicyError::InvalidBaseDelay => String::from_str("base_delay must be greater than 0ms"),
            RetryPolicyError::InvalidFactor => String::from_str("factor must be greater than 1.0"),
            RetryPolicyError::InvalidMaxDelay => String::from_str(
                "max_delay must be greater than 0ms and >= base_delay",
            ),
        }
    }
}

/// The base delay is accepted when it is positive.
pub fn check_base_delay(base_delay_ms: u64) -> (r: Result<(), RetryPolicyError>)
    ensures
        base_delay_ms == 0 <==> r == Err::<(), RetryPolicyError>(RetryPolicyError::InvalidBaseDelay),
        base_delay_ms > 0 <==> r is Ok,
{
    if base_delay_ms == 0 {
        Err(RetryPolicyError::InvalidBaseDelay)
    } else {
        Ok(())
    }
}

/// The cap on the delay is accepted when absent, or positive and no smaller
/// than the base delay; it is returned as given.
pub fn check_max_delay(base_delay_ms: u64, max_delay_ms: Option<u64>) -> (r: Result<Option<u64>, RetryPolicyError>)
    ensures
        match max_delay_ms {
            None => r == Ok::<Option<u64>, RetryPolicyError>(None),
            Some(m) => if m == 0 || m < base_delay_ms {
                r == Err::<Option<u64>, RetryPolicyError>(RetryPolicyError::InvalidMaxDelay)
            } else {
                r == Ok::<Option<u64>, RetryPolicyError>(Some(m))
            },
        },
{
    match max_delay_ms {
        Some(0) => Err(RetryPolicyError::InvalidMaxDelay),
        Some(m) => {
            if m < base_delay_ms {
                Err(RetryPolicyError::InvalidMaxDelay)
            } else {
                Ok(Some(m))
            }
        },
        None => Ok(None),
    }
}

/// `hay` holds `needle` as a run of consecutive characters.
pub open spec fn has_substring(hay: Seq<char>, needle: Seq<char>) -> bool {
    exists|i: int| 0 <= i && i + needle.len() <= hay.len() && #[trigger] hay.subrange(i, i + needle.len()) == needle
}

fn matches_at(hay: &str, needle: &str, i: usize, nl: usize) -> (r: bool)
    requires
        nl == needle@.len(),
        i + nl <= hay@.len(),
        hay@.len() <= usize::MAX,
    ensures
        r == (hay@.subrange(i as int, i + nl) == needle@),
{
    let mut k: usize = 0;
    while k < nl
        invariant
            nl == needle@.len(),
            i + nl <= hay@.len(),
            hay@.len() <= usize::MAX,
            k <= nl,
            forall|j: int| 0 <= j < k ==> hay@[i + j] == needle@[j],
        decreases nl - k,
    {
        if hay.get_char(i + k) != needle.get_char(k) {
            assert(hay@.subrange(i as int, i + nl)[k as int] != needle@[k as int]);
            return false;
        }
        k = k + 1;
    }
    assert(hay@.subrange(i as int, i + nl) =~= needle@);
    true
}

/// Whether `needle` occurs in `hay`.
fn str_contains(hay: &str, needle: &str) -> (r: bool)
    ensures
        r == has_substring(hay@, needle@),
{
    let hl = hay.unicode_len();
    let nl = needle.unicode_len();
    if nl > hl {
        return false;
    }
    if nl == 0 {
        assert(hay@.subrange(0int, 0int + needle@.len()) =~= needle@);
        return true;
    }
    let last = hl - nl;
    let mut i: usize = 0;
    while i <= last
        invariant
            hl == hay@.len(),
            nl == needle@.len(),
            0 < nl <= hl,
            last == hl - nl,
            i <= last + 1,
            forall|j: int| 0 <= j < i ==> #[trigger] hay@.subrange(j, j + nl) != needle@,
        decreases hl - i,
    {
        if matches_at(hay, needle, i, nl) {
            return true;
        }
        i = i + 1;
    }
    false
}

/// Whether an error, by its message, is one to retry: its message contains
/// one of the patterns. With no patterns nothing is retried.
pub fn is_retryable(retryable_errors: &[String], error: &str) -> (r: bool)
    ensures
        r == exists|k: int| 0 <= k < retryable_errors@.len() && has_substring(error@, #[trigger] retryable_errors@[k]@),
{
    if retryable_errors.len() == 0 {
        return false;
    }
    let mut k: usize = 0;
    while k < retryable_errors.len()
        invariant
            k <= retryable_errors@.len(),
            forall|j: int| 0 <= j < k ==> !has_substring(error@, #[trigger] retryable_errors@[j]@),
        decreases retryable_errors@.len() - k,
    {
        if str_contains(error, retryable_errors[k].as_str()) {
            return true;
        }
        k = k + 1;
    }
    false
}

} // verus!
