//! Nanosecond timestamps from a precise or a cheaper, coarser clock.
use std::time::{Duration, Instant};
use vstd::prelude::*;

verus! {

#[verifier::external_type_specification]
#[verifier::external_body]
pub struct ExInstant(Instant);

/// Relies on `std::time::Instant::now`: the current monotonic instant.
#[verifier::external_body]
fn instant_now() -> Instant {
    Instant::now()
}

/// Relies on `std::time::Instant::elapsed`: the time since `start`.
#[verifier::external_body]
fn elapsed(start: &Instant) -> Duration {
    start.elapsed()
}

/// Relies on `std::time::Duration::as_nanos`: the whole duration in
/// nanoseconds.
#[verifier::external_body]
fn duration_nanos(d: &Duration) -> u128 {
    d.as_nanos()
}

/// Relies on `coarsetime::Clock::now_since_epoch`: the coarse clock's
/// reading, in nanoseconds.
#[verifier::external_body]
fn coarse_now_nanos() -> u64 {
    coarsetime::Clock::now_since_epoch().as_nanos()
}

/// A source of nanosecond timestamps.
pub enum Timer {
    /// Nanoseconds since the instant the timer was created.
    Monotonic(Instant),
    /// The coarse clock's reading.
    MonotonicCoarse,
}

impl Timer {
    pub open spec fn is_coarse(&self) -> bool {
        self is MonotonicCoarse
    }

    /// A coarse timer when `coarse`, else a precise one starting now.
    pub fn new(coarse: bool) -> (r: Timer)
        ensures
            r.is_coarse() == coarse,
    {
        if coarse {
            Timer::MonotonicCoarse
        } else {
            Timer::Monotonic(instant_now())
        }
    }

    /// The current timestamp in nanoseconds (a precise reading is cut to
    /// its low 64 bits, some 584 years).
    pub fn get_ts(&self) -> u64 {
        match self {
            Timer::Monotonic(start) => duration_nanos(&elapsed(start)) as u64,
            Timer::MonotonicCoarse => coarse_now_nanos(),
        }
    }
}

} // verus!
