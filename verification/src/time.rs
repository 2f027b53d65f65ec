//! Durations.
use std::time::Duration;
use vstd::prelude::*;

verus! {

/// The duration of `secs` whole seconds.
pub uninterp spec fn secs_duration(secs: u64) -> Duration;

/// `std::time::Duration::from_secs`: the duration of `secs` whole seconds.
#[verifier::external_body]
pub(crate) fn seconds(secs: u64) -> (duration: Duration)
    ensures
        duration == secs_duration(secs),
{
    Duration::from_secs(secs)
}

} // verus!
