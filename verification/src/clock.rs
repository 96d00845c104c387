//! The monotonic clock liveness decisions are made on.

use vstd::prelude::*;

use crate::connection::Moment;

verus! {

/// `tokio::time::Instant`, opaque to the verifier.
#[verifier::external_type_specification]
#[verifier::external_body]
pub struct ExInstant(tokio::time::Instant);

/// Reads the runtime clock with `tokio::time::Instant::now`. Nothing is
/// claimed of the reading: it is the machine's.
#[verifier::external_body]
fn runtime_now() -> (now: tokio::time::Instant) {
    tokio::time::Instant::now()
}

/// The nanoseconds since `origin`, read with `tokio::time::Instant::elapsed`.
/// That hands out a `std::time::Duration`, so the reading is at most the
/// longest one. How much time has passed is the machine's.
#[verifier::external_body]
fn runtime_elapsed(origin: &tokio::time::Instant) -> (elapsed: u128)
    ensures
        elapsed <= crate::durations::STD_DURATION_MAX,
{
    origin.elapsed().as_nanos()
}

/// A clock that counts from the moment it was started.
pub struct Clock {
    origin: tokio::time::Instant,
}

impl Clock {
    /// Starts a clock.
    pub fn start() -> Clock {
        Clock { origin: runtime_now() }
    }

    /// The time this clock shows: a span since it was started, which a standard
    /// duration holds. A deadline one such span later lies on the clock as well.
    pub fn now(&self) -> (now: Moment)
        ensures
            now <= crate::durations::STD_DURATION_MAX,
    {
        runtime_elapsed(&self.origin)
    }
}

} // verus!
