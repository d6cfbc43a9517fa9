//! Frame timing.
use std::time::{Duration, Instant};
use vstd::prelude::*;

verus! {

/// Declares `std::time::Instant` so that the clock can hold points in time;
/// the proofs never look inside it.
#[verifier::external_type_specification]
#[verifier::external_body]
pub struct ExInstant(std::time::Instant);

/// Relies on `std::time::Instant::now` for the current time; nothing is
/// promised of the value.
pub assume_specification[ std::time::Instant::now ]() -> std::time::Instant;

/// Relies on `std::time::Instant::elapsed` for the time since an instant;
/// nothing is promised of the value.
pub assume_specification[ std::time::Instant::elapsed ](instant: &std::time::Instant) -> core::time::Duration;

/// Relies on `core::time::Duration::from_secs` to make the initial frame time.
pub assume_specification[ core::time::Duration::from_secs ](secs: u64) -> core::time::Duration;

/// Measures the time between frames.
pub struct Clock {
    pub start_time: Instant,
    pub previous_tick: Instant,
    pub last_delta_time: Duration,
}

impl Clock {
    /// A clock started now, with a first frame time of one second.
    pub fn start() -> (c: Clock)
        ensures
            c.previous_tick == c.start_time,
    {
        let now = Instant::now();
        Clock { start_time: now, previous_tick: now, last_delta_time: Duration::from_secs(1) }
    }

    /// Records the time since the previous tick as the frame time, makes now
    /// the previous tick, and returns the frame time.
    pub fn tick(&mut self) -> (dt: Duration)
        ensures
            dt == final(self).last_delta_time,
            final(self).start_time == old(self).start_time,
    {
        self.last_delta_time = self.previous_tick.elapsed();
        self.previous_tick = Instant::now();
        self.last_delta_time
    }
}

} // verus!
