//! JSON values carried through the library.
//!
//! The library never looks inside a JSON value; it only stores, copies and
//! hands values back, so the type stays opaque.
use vstd::prelude::*;

verus! {

/// `serde_json::Value`, carried as an opaque value.
#[verifier::external_type_specification]
#[verifier::external_body]
pub struct ExJsonValue(serde_json::Value);

/// A copy of a JSON value, made by `serde_json::Value`'s derived `Clone`,
/// which rebuilds the same value; the copy is stated to be that value.
#[verifier::external_body]
pub(crate) fn copy_value(v: &serde_json::Value) -> (r: serde_json::Value)
    ensures
        r == *v,
{
    v.clone()
}

} // verus!
