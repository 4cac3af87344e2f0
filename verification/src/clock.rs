//! Readings of the system clock.
//!
//! A reading can only be taken from the clock: nothing else makes one, so a
//! value of this type is a time the clock actually gave.

use vstd::prelude::*;

use crate::timed_map::timestamp_now;

verus! {

/// A reading of the system clock, in nanoseconds since the Unix epoch.
pub struct ClockReading {
    nanos: u128,
}

impl View for ClockReading {
    type V = u128;

    closed spec fn view(&self) -> u128 {
        self.nanos
    }
}

impl ClockReading {
    /// Reads the clock.
    pub fn read() -> (r: ClockReading) {
        ClockReading { nanos: timestamp_now() }
    }

    /// The reading in nanoseconds since the Unix epoch.
    pub fn nanos(&self) -> (r: u128)
        ensures
            r == self@,
    {
        self.nanos
    }
}

} // verus!
