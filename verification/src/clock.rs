//! A monotonic clock, read as whole nanoseconds.
//!
//! Rate limiting is specified over integer nanoseconds of monotonic time.
//! All admission arithmetic is done by verified code on a plain `u64`; this
//! module only turns the process clock into such a number, so its two
//! trusted items say nothing beyond what the standard library documents.

use vstd::prelude::*;

verus! {

use crate::limit::MAX_NOW_NANOS;

#[verifier::external_type_specification]
#[verifier::external_body]
pub struct ExInstant(std::time::Instant);

/// Relies on `std::time::Instant::now`: an opaque reading of the monotonic
/// clock. Nothing can be promised of when it is taken.
#[verifier::external_body]
fn instant_now() -> std::time::Instant {
    std::time::Instant::now()
}

/// Relies on `std::time::Instant::elapsed`: the time since `origin`, which
/// never goes backwards. Its value depends on the clock, so nothing is
/// promised of it; saturates instead of failing on an absurdly distant
/// origin.
#[verifier::external_body]
fn nanos_since(origin: &std::time::Instant) -> u64 {
    origin.elapsed().as_nanos().try_into().unwrap_or(u64::MAX)
}

/// Nanoseconds elapsed since the clock was created, clamped to the range the
/// admission arithmetic is proved for. The clamp only matters some 146 years
/// in: until then the reading passes through unchanged.
#[derive(Debug, Clone, Copy)]
pub struct MonotonicClock {
    origin: std::time::Instant,
}

impl MonotonicClock {
    /// A clock that starts counting now.
    pub fn new() -> Self {
        MonotonicClock { origin: instant_now() }
    }

    /// The current reading. The value depends on the machine's clock; only
    /// its bound is promised.
    pub fn now_nanos(&self) -> (r: u64)
        ensures
            r <= MAX_NOW_NANOS,
    {
        let raw = nanos_since(&self.origin);
        if raw > MAX_NOW_NANOS {
            MAX_NOW_NANOS
        } else {
            raw
        }
    }
}

} // verus!
