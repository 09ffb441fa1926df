//! The time and the fresh identifiers that the store stamps on its writes.
use vstd::prelude::*;

verus! {

/// Relies on `chrono::Utc::now` and `DateTime::timestamp_millis`: the wall
/// clock in milliseconds since the epoch. Nothing is promised of its value.
#[verifier::external_body]
pub(crate) fn now_millis() -> (r: i64) {
    chrono::Utc::now().timestamp_millis()
}

/// Relies on `uuid::Uuid::now_v7` and its hyphenated `Display`: a
/// time-ordered identifier of 36 characters.
#[verifier::external_body]
pub(crate) fn new_task_id() -> (r: String)
    ensures
        r@.len() == 36,
{
    uuid::Uuid::now_v7().to_string()
}

/// Relies on `uuid::Uuid::new_v4` and its `simple` format: 32 random
/// lowercase hexadecimal digits.
#[verifier::external_body]
pub(crate) fn fresh_rev_suffix() -> (r: String)
    ensures
        crate::task::is_fresh_suffix(r@),
{
    uuid::Uuid::new_v4().simple().to_string()
}

} // verus!
