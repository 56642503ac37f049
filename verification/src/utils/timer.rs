//! The coarse clock that stamps events.

use vstd::prelude::*;

verus! {

/// Milliseconds since the Unix epoch as of the last refresh of the coarse
/// clock.
///
/// Trusted: calls `coarsetime::Clock::recent_since_epoch` and
/// `coarsetime::Duration::as_millis`. The value depends on the time at which
/// the clock was last refreshed, so nothing is claimed of it.
#[verifier::external_body]
pub fn get_coarse_timestamp_ms() -> u64 {
    coarsetime::Clock::recent_since_epoch().as_millis()
}

} // verus!
