//! The system clock.

use vstd::prelude::*;

verus! {

/// The current time in milliseconds since the Unix epoch, from `chrono::Utc::now` and
/// `DateTime::timestamp_millis`. Nothing is claimed of the reading.
#[verifier::external_body]
pub(crate) fn now_millis() -> (r: i64)
{
    chrono::Utc::now().timestamp_millis()
}

} // verus!
