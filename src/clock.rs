use std::time::Duration;

use vstd::prelude::*;

verus! {

/// What `Duration::from_millis` returns for a number of milliseconds.
pub uninterp spec fn millis_duration(ms: u64) -> Duration;

/// Relies on core::time::Duration::from_millis: the duration of `millis` milliseconds,
/// a function of `millis` alone that never panics.
pub assume_specification[ core::time::Duration::from_millis ](millis: u64) -> (r: Duration)
    ensures
        r == millis_duration(millis),
;

/// Relies on std::time::SystemTime::now, read as nanoseconds since the Unix epoch
/// (zero for a clock set before the epoch). Nothing is known of the value.
#[verifier::external_body]
pub(crate) fn unix_time_nanos() -> (r: u128) {
    std::time::SystemTime::now().duration_since(std::time::UNIX_EPOCH).unwrap_or_default().as_nanos()
}

/// Pacing of rotations: a fixed tick length and a count of ticks taken.
#[derive(Clone, Debug)]
pub struct RotationClock {
    tick_ms: u64,
    counter: u64,
}

impl RotationClock {
    /// Length of one tick in milliseconds.
    pub closed spec fn tick_ms(&self) -> u64 {
        self.tick_ms
    }

    /// Ticks taken so far, modulo `2^64`.
    pub closed spec fn ticks(&self) -> u64 {
        self.counter
    }

    /// A clock whose ticks last `step_ms` milliseconds, at least one.
    pub fn new(step_ms: u64) -> (r: RotationClock)
        ensures
            r.tick_ms() == if step_ms == 0 {
                1
            } else {
                step_ms
            },
            r.ticks() == 0,
    {
        let tick_ms = if step_ms == 0 {
            1
        } else {
            step_ms
        };
        RotationClock { tick_ms, counter: 0 }
    }

    /// Length of one tick.
    pub fn tick_duration(&self) -> (r: Duration)
        ensures
            r == millis_duration(self.tick_ms()),
    {
        Duration::from_millis(self.tick_ms)
    }

    /// Counts one tick (wrapping) and returns the tick length.
    pub fn tick(&mut self) -> (r: Duration)
        ensures
            final(self).tick_ms() == old(self).tick_ms(),
            final(self).ticks() == if old(self).ticks() == u64::MAX {
                0
            } else {
                (old(self).ticks() + 1) as u64
            },
            r == millis_duration(old(self).tick_ms()),
    {
        self.counter = self.counter.wrapping_add(1);
        Duration::from_millis(self.tick_ms)
    }
}

} // verus!
