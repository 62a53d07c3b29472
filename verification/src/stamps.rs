//! Identifiers and timestamps, as the `uuid` and `chrono` crates give them.

use vstd::prelude::*;

verus! {

/// The identifier that stands for "no portfolio": all 128 bits are zero.
pub const NIL_ID: u128 = 0;

/// A new random identifier: the value of `uuid::Uuid::new_v4()` as
/// `Uuid::as_u128` packs it. The version and variant bits that `new_v4` sets
/// make it differ from `NIL_ID`; nothing else is known of it.
#[verifier::external_body]
pub(crate) fn fresh_id() -> (r: u128)
    ensures
        r != NIL_ID,
{
    uuid::Uuid::new_v4().as_u128()
}

/// The current time in microseconds since the Unix epoch, UTC: the value of
/// `chrono::Utc::now()` as `DateTime::timestamp_micros` counts it. Nothing is
/// claimed of the value.
#[verifier::external_body]
pub(crate) fn now_micros() -> (r: i64) {
    chrono::Utc::now().timestamp_micros()
}

} // verus!
