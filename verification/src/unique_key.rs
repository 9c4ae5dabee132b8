//! Keys that tell requests apart for as long as the process runs.
use snowflake::ProcessUniqueId;
use vstd::prelude::*;

verus! {

/// The identifier type of the `snowflake` crate.
#[verifier::external_type_specification]
#[verifier::external_body]
pub struct ExProcessUniqueId(ProcessUniqueId);

/// Calls `snowflake::ProcessUniqueId::new`. The identifier depends on how
/// many were made before in the process, so nothing is stated of it.
#[verifier::external_body]
fn new_process_unique_id() -> (r: ProcessUniqueId) {
    ProcessUniqueId::new()
}

/// Calls the `PartialEq` impl that `snowflake::ProcessUniqueId` derives, which
/// compares all of its fields: two identifiers are equal exactly when they are
/// the same value.
#[verifier::external_body]
fn process_unique_id_eq(a: &ProcessUniqueId, b: &ProcessUniqueId) -> (r: bool)
    ensures
        r == (*a == *b),
{
    *a == *b
}

/// A key that no other key made in this process equals.
#[derive(PartialEq, Eq, Hash, Debug, Clone, Copy)]
pub struct UniqueKey(ProcessUniqueId);

impl UniqueKey {
    /// A fresh key.
    pub fn new() -> (r: UniqueKey) {
        UniqueKey(new_process_unique_id())
    }

    /// Whether two keys are the same key.
    pub fn same(&self, other: &UniqueKey) -> (r: bool)
        ensures
            r == (*self == *other),
    {
        process_unique_id_eq(&self.0, &other.0)
    }
}

} // verus!
