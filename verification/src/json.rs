//! JSON values, which the hub carries without reading them.

use vstd::prelude::*;

verus! {

#[verifier::external_type_specification]
#[verifier::external_body]
pub struct ExJsonValue(serde_json::Value);

/// Copies a JSON value.
///
/// Calls `Clone::clone` of `serde_json::Value`, which that crate derives:
/// the copy is the same value.
#[verifier::external_body]
pub(crate) fn clone_json(value: &serde_json::Value) -> (r: serde_json::Value)
    ensures
        r == *value,
{
    value.clone()
}

} // verus!
