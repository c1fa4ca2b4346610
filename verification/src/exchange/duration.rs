//! Spans of time.

use std::time::Duration;
use vstd::prelude::*;

verus! {

/// The length of a span of time in nanoseconds.
pub uninterp spec fn duration_nanos(d: Duration) -> nat;

/// `Duration::from_secs` of the standard library gives a span of that many whole seconds.
#[verifier::external_body]
pub(crate) fn seconds(secs: u64) -> (r: Duration)
    ensures
        duration_nanos(r) == secs * 1_000_000_000,
{
    Duration::from_secs(secs)
}

} // verus!
