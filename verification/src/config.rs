//! Settings of the process supervisor.

use crate::clock::Duration;
use vstd::prelude::*;

verus! {

/// How much output a process may leave in memory, how often waiting loops look
/// again, and how long a process has to end after it was asked to.
#[derive(Debug, Clone, Copy, PartialEq, Eq, Structural)]
pub struct ProcessSupervisorConfig {
    pub output_capacity: usize,
    pub poll_interval: Duration,
    pub kill_grace: Duration,
}

/// One millisecond, in nanoseconds.
pub const MILLISECOND: u128 = 1_000_000;

/// The longest time that a process has to end after it was asked to: five seconds.
pub const MAX_KILL_GRACE: u128 = 5_000_000_000;

/// The longest time to wait for output: thirty seconds.
pub const MAX_WAIT_FOR_OUTPUT: u128 = 30_000_000_000;

impl Default for ProcessSupervisorConfig {
    /// A million bytes of output for each stream, a look every ten milliseconds and a
    /// quarter of a second to end.
    fn default() -> (r: Self)
        ensures
            r.output_capacity == 1_000_000,
            r.poll_interval@ == 10 * MILLISECOND,
            r.kill_grace@ == 250 * MILLISECOND,
    {
        ProcessSupervisorConfig {
            output_capacity: 1_000_000,
            poll_interval: Duration::from_millis(10),
            kill_grace: Duration::from_millis(250),
        }
    }
}

impl ProcessSupervisorConfig {
    /// Whether the settings are within their bounds: room for a byte, a pause of a
    /// millisecond or more, at most the longest grace.
    pub open spec fn well_formed(self) -> bool {
        &&& self.output_capacity >= 1
        &&& self.poll_interval@ >= MILLISECOND
        &&& self.kill_grace@ <= MAX_KILL_GRACE
    }

    /// The settings moved to the nearest that are within their bounds.
    pub open spec fn clamped(self) -> ProcessSupervisorConfig {
        ProcessSupervisorConfig {
            output_capacity: if self.output_capacity >= 1 {
                self.output_capacity
            } else {
                1
            },
            poll_interval: if self.poll_interval@ >= MILLISECOND {
                self.poll_interval
            } else {
                Duration { nanos: MILLISECOND }
            },
            kill_grace: if self.kill_grace@ <= MAX_KILL_GRACE {
                self.kill_grace
            } else {
                Duration { nanos: MAX_KILL_GRACE }
            },
        }
    }

    /// Move the settings to the nearest that are within their bounds.
    pub fn clamp_to_bounds(self) -> (r: Self)
        ensures
            r == self.clamped(),
            r.well_formed(),
            self.well_formed() ==> r == self,
    {
        ProcessSupervisorConfig {
            output_capacity: if self.output_capacity >= 1 {
                self.output_capacity
            } else {
                1
            },
            poll_interval: self.poll_interval.longer(Duration { nanos: MILLISECOND }),
            kill_grace: self.kill_grace.shorter(Duration { nanos: MAX_KILL_GRACE }),
        }
    }
}

} // verus!
