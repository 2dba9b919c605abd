//! Wall-clock time and fresh identifiers.
//!
//! Timestamps are milliseconds since the Unix epoch (UTC). The functions here
//! read the system clock or a random source, so nothing is promised about the
//! values they return beyond their shape.
use vstd::prelude::*;

verus! {

/// Milliseconds since the Unix epoch, read from `chrono::Utc::now()`.
///
/// The result depends on the system clock; no property of it is stated.
#[verifier::external_body]
pub(crate) fn now_millis() -> (t: i64) {
    chrono::Utc::now().timestamp_millis()
}

/// A fresh random identifier: `uuid::Uuid::new_v4()` rendered by its
/// `Display` impl.
///
/// That impl writes the lower-case hyphenated form: 36 characters, hyphens
/// at positions 8, 13, 18 and 23 and lower-case hexadecimal digits
/// elsewhere. Which identifier comes back depends on the random source.
#[verifier::external_body]
pub(crate) fn fresh_uuid() -> (s: String)
    ensures
        s@.len() == 36,
        forall|i: int|
            0 <= i < 36 ==> if i == 8 || i == 13 || i == 18 || i == 23 {
                s@[i] == '-'
            } else {
                ('0' <= #[trigger] s@[i] <= '9') || ('a' <= s@[i] <= 'f')
            },
{
    uuid::Uuid::new_v4().to_string()
}

} // verus!
