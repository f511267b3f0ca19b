//! Elapsed times and the monotonic timer that produces them.
//!
//! A `Duration` is a non-negative span of time held as a whole number of
//! nanoseconds. The benchmark only ever obtains one from `Timer::stop`, from
//! an explicit constructor, or by accumulating such values.

use vstd::prelude::*;

verus! {

/// The largest nanosecond count a `std::time::Duration` can hold:
/// `u64::MAX` seconds plus `999_999_999` nanoseconds.
pub const MAX_STD_DURATION_NANOS: u128 = 18446744073709551615999999999;

/// A non-negative span of time, held as whole nanoseconds.
#[derive(Debug, Clone, Copy, PartialEq, Eq, Structural)]
pub struct Duration {
    nanos: u128,
}

impl View for Duration {
    type V = int;

    closed spec fn view(&self) -> int {
        self.nanos as int
    }
}

impl Duration {
    /// A zero-length span.
    pub fn zero() -> (r: Duration)
        ensures
            r@ == 0,
    {
        Duration { nanos: 0 }
    }

    /// A span of `secs` whole seconds.
    pub fn from_secs(secs: u64) -> (r: Duration)
        ensures
            r@ == secs * 1000000000,
    {
        Duration { nanos: secs as u128 * 1000000000 }
    }

    /// A span of `millis` whole milliseconds.
    pub fn from_millis(millis: u64) -> (r: Duration)
        ensures
            r@ == millis * 1000000,
    {
        Duration { nanos: millis as u128 * 1000000 }
    }

    /// A span of `micros` whole microseconds.
    pub fn from_micros(micros: u64) -> (r: Duration)
        ensures
            r@ == micros * 1000,
    {
        Duration { nanos: micros as u128 * 1000 }
    }

    /// A span of `nanos` whole nanoseconds.
    pub fn from_nanos(nanos: u128) -> (r: Duration)
        ensures
            r@ == nanos,
    {
        Duration { nanos }
    }

    /// Whole seconds contained in this span, rounded down.
    pub fn as_secs(&self) -> (r: u128)
        ensures
            r == self@ / 1000000000,
    {
        self.nanos / 1000000000
    }

    /// Whole milliseconds contained in this span, rounded down.
    pub fn as_millis(&self) -> (r: u128)
        ensures
            r == self@ / 1000000,
    {
        self.nanos / 1000000
    }

    /// Whole microseconds contained in this span, rounded down.
    pub fn as_micros(&self) -> (r: u128)
        ensures
            r == self@ / 1000,
    {
        self.nanos / 1000
    }

    /// The exact nanosecond count.
    pub fn as_nanos(&self) -> (r: u128)
        ensures
            r == self@,
    {
        self.nanos
    }
}

/// A scoped monotonic timer: capture a start point, then read the time that
/// has passed since.
pub struct Timer {
    pub start: std::time::Instant,
}

#[verifier::external_type_specification]
#[verifier::external_body]
pub struct ExInstant(std::time::Instant);

impl Timer {
    /// Captures the current point of the monotonic clock.
    ///
    /// Relies on `std::time::Instant::now`: a monotonic, not wall-clock,
    /// reading. Nothing is claimed of the value itself.
    #[verifier::external_body]
    pub fn start() -> Timer {
        Timer { start: std::time::Instant::now() }
    }

    /// The time that has passed since `start`.
    ///
    /// Relies on `std::time::Instant::elapsed`: it returns a
    /// `std::time::Duration`, which by its documented representation holds at
    /// most `u64::MAX` seconds and `999_999_999` nanoseconds. Beyond that
    /// bound nothing is claimed: the reading depends on the clock.
    #[verifier::external_body]
    pub fn stop(&self) -> (r: Duration)
        ensures
            0 <= r@ <= MAX_STD_DURATION_NANOS,
    {
        Duration { nanos: self.start.elapsed().as_nanos() }
    }
}

} // verus!
