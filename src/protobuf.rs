//! Declarations of the protobuf well-known types that the store carries, and
//! the few calls into them that the store makes.
use vstd::prelude::*;

verus! {

/// `google.protobuf.Value`: the opaque payload of a scalar entry.
#[verifier::external_type_specification]
#[verifier::external_body]
pub struct ExValue(prost_types::Value);

/// `google.protobuf.Timestamp`: the time at which a write was applied.
#[verifier::external_type_specification]
#[verifier::external_body]
pub struct ExTimestamp(prost_types::Timestamp);

/// Relies on the `Clone` that prost derives for `prost_types::Value`: a field
/// by field copy, equal to the value copied.
pub assume_specification[ <prost_types::Value as Clone>::clone ](v: &prost_types::Value) -> (r:
    prost_types::Value)
    ensures
        r == *v,
;

/// Relies on `std::time::SystemTime::now` and prost_types'
/// `From<SystemTime> for Timestamp`: the current wall-clock time. Nothing is
/// known of the value read.
#[verifier::external_body]
pub(crate) fn current_time() -> prost_types::Timestamp {
    std::time::SystemTime::now().into()
}

} // verus!
