//! Points in time, as the flow records carry them.

use vstd::prelude::*;

verus! {

/// Nanoseconds in one second.
pub const NANOS_PER_SECOND: u128 = 1_000_000_000;

/// A point in time: nanoseconds since the Unix epoch.
#[derive(Clone, Copy, Debug, PartialEq, Eq, Hash, Structural)]
pub struct Timestamp {
    pub nanos: u128,
}

impl Timestamp {
    /// Whole seconds that lie between `self` and a later point `now`;
    /// zero where `now` is not later.
    pub open spec fn seconds_until(self, now: Timestamp) -> int {
        if now.nanos >= self.nanos {
            (now.nanos - self.nanos) / (NANOS_PER_SECOND as int)
        } else {
            0
        }
    }

    /// Whole seconds elapsed since `self`, read at `now`.
    pub fn elapsed_seconds(&self, now: Timestamp) -> (seconds: u128)
        ensures
            seconds == self.seconds_until(now),
    {
        if now.nanos >= self.nanos {
            (now.nanos - self.nanos) / NANOS_PER_SECOND
        } else {
            0
        }
    }
}

} // verus!
