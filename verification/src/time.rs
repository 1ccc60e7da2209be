//! Durations.

use std::time::Duration;

use vstd::prelude::*;

verus! {

/// The whole seconds that `Duration::as_secs` reads from a duration.
pub uninterp spec fn whole_secs(duration: Duration) -> u64;

/// The nanoseconds beyond the whole seconds that `Duration::subsec_nanos` reads
/// from a duration.
pub uninterp spec fn nanos_beyond(duration: Duration) -> u32;

/// `Duration::from_secs` makes a duration of whole seconds.
pub assume_specification[ Duration::from_secs ](secs: u64) -> (r: Duration)
    ensures
        whole_secs(r) == secs,
        nanos_beyond(r) == 0,
;

/// `Duration::as_secs` reads the whole seconds of a duration.
pub assume_specification[ Duration::as_secs ](duration: &Duration) -> (r: u64)
    ensures
        r == whole_secs(*duration),
;

/// `Duration::subsec_nanos` reads the nanoseconds beyond the whole seconds of a
/// duration, which are less than a second.
pub assume_specification[ Duration::subsec_nanos ](duration: &Duration) -> (r: u32)
    ensures
        r == nanos_beyond(*duration),
        r < 1_000_000_000,
;

} // verus!
