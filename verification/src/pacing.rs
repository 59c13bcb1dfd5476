//! Rate limiting against a monotonic clock that the host reads, in
//! milliseconds.

use vstd::prelude::*;

verus! {

/// The time from `last` to `now`. A reading that lies before `last`
/// counts as no time at all.
pub open spec fn elapsed(last: u64, now: u64) -> nat {
    if now >= last {
        (now - last) as nat
    } else {
        0
    }
}

/// Whether a tick is due at `now`, given the time of the last one and the
/// shortest interval between two ticks.
pub open spec fn is_due(last: u64, now: u64, interval: u64) -> bool {
    elapsed(last, now) >= interval
}

/// Whether a tick is due at `now`.
pub fn due(last: u64, now: u64, interval: u64) -> (fire: bool)
    ensures
        fire == is_due(last, now, interval),
{
    let waited: u64 = if now >= last {
        now - last
    } else {
        0
    };
    waited >= interval
}

/// The clock of a simulation that advances by the time that has gone by
/// since its last step, however long that was.
#[derive(Debug, Clone, Copy, PartialEq, Eq, Structural)]
pub struct Stopwatch {
    /// The clock reading at the last step, taken or skipped.
    pub last_step: u64,
}

impl Stopwatch {
    /// A watch whose first lap starts at `now`.
    pub fn new(now: u64) -> (watch: Stopwatch)
        ensures
            watch.last_step == now,
    {
        Stopwatch { last_step: now }
    }

    /// The time to advance by at `now`, in milliseconds. While paused
    /// there is none, and the watch still moves on to `now`, so that the
    /// pause does not count as time gone by once the simulation resumes.
    pub fn lap(&mut self, now: u64, paused: bool) -> (dt: Option<u64>)
        ensures
            final(self).last_step == now,
            dt == if paused {
                None::<u64>
            } else {
                Some(elapsed(old(self).last_step, now) as u64)
            },
    {
        let last: u64 = self.last_step;
        self.last_step = now;
        if paused {
            None
        } else if now >= last {
            Some(now - last)
        } else {
            Some(0)
        }
    }
}

/// Right after a tick at `now`, none is due again before a whole interval
/// has gone by.
pub proof fn law_not_due_within_interval(now: u64, later: u64, interval: u64)
    requires
        interval > 0,
        later < now + interval,
    ensures
        !is_due(now, later, interval),
{
}

} // verus!
