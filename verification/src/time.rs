//! Spans of time of the standard library, as far as the resolver reads
//! them: whole seconds, and what is left of a second.

use std::time::Duration;
use vstd::prelude::*;

verus! {

/// The whole seconds that a span of time holds.
pub uninterp spec fn duration_secs(d: Duration) -> u64;

/// What a span of time holds beyond its whole seconds, in nanoseconds.
pub uninterp spec fn duration_subsec_nanos(d: Duration) -> u32;

/// `Duration::from_secs`: a span of that many whole seconds and nothing
/// more.
pub assume_specification[ Duration::from_secs ](secs: u64) -> (d: Duration)
    ensures
        duration_secs(d) == secs,
        duration_subsec_nanos(d) == 0,
;

/// `Duration::as_secs`: the whole seconds of the span.
pub assume_specification[ Duration::as_secs ](d: &Duration) -> (secs: u64)
    ensures
        secs == duration_secs(*d),
;

} // verus!
