//! Repeating timers. The same abstraction drives weapon cooldowns and
//! animation frame advance: the timer accumulates elapsed milliseconds and
//! fires at most once per tick when it crosses its interval, carrying the
//! overshoot into the next cycle instead of bursting to catch up.

use vstd::prelude::*;

verus! {

/// Largest interval a repeating timer may have, in milliseconds.
pub const MAX_INTERVAL: u64 = 1_000_000_000;

/// Largest elapsed time a single tick may carry, in milliseconds.
pub const MAX_DELTA: u64 = 1_000_000_000_000;

/// A repeating countdown: fires each time the accumulated time crosses the
/// interval, at most once per tick.
#[derive(Clone, Copy, PartialEq, Eq, Structural, Debug)]
pub struct RepeatTimer {
    pub interval: u64,
    pub elapsed: u64,
}

impl RepeatTimer {
    pub open spec fn wf(self) -> bool {
        &&& 1 <= self.interval <= MAX_INTERVAL
        &&& self.elapsed < self.interval
    }

    pub fn new(interval: u64) -> (r: RepeatTimer)
        requires
            1 <= interval <= MAX_INTERVAL,
        ensures
            r.wf(),
            r.interval == interval,
            r.elapsed == 0,
    {
        RepeatTimer { interval, elapsed: 0 }
    }

    /// Advances the timer by `delta` milliseconds. Fires exactly when the
    /// accumulated time reaches the interval, once at most however large the
    /// delta, and keeps the remainder for the next cycle.
    pub fn tick(&mut self, delta: u64) -> (fired: bool)
        requires
            old(self).wf(),
            delta <= MAX_DELTA,
        ensures
            final(self).wf(),
            final(self).interval == old(self).interval,
            fired == (old(self).elapsed + delta >= old(self).interval),
            final(self).elapsed as int == (old(self).elapsed + delta) % (old(self).interval as int),
    {
        let total = self.elapsed + delta;
        if total >= self.interval {
            self.elapsed = total % self.interval;
            true
        } else {
            proof {
                vstd::arithmetic::div_mod::lemma_small_mod(total as nat, self.interval as nat);
            }
            self.elapsed = total;
            false
        }
    }
}

/// A repeating timer plus a frame index that wraps around the frame count:
/// the state behind sprite animation.
#[derive(Clone, Copy, PartialEq, Eq, Structural, Debug)]
pub struct AnimationTimer {
    pub timer: RepeatTimer,
    pub frame: usize,
    pub frame_count: usize,
}

impl AnimationTimer {
    pub open spec fn wf(self) -> bool {
        &&& self.timer.wf()
        &&& 1 <= self.frame_count
        &&& self.frame < self.frame_count
    }

    pub fn new(interval: u64, frame_count: usize) -> (r: AnimationTimer)
        requires
            1 <= interval <= MAX_INTERVAL,
            1 <= frame_count,
        ensures
            r.wf(),
            r.timer.interval == interval,
            r.timer.elapsed == 0,
            r.frame == 0,
            r.frame_count == frame_count,
    {
        AnimationTimer { timer: RepeatTimer::new(interval), frame: 0, frame_count }
    }

    /// Advances the timer; on each interval crossing the frame index moves
    /// forward by one, wrapping around the frame count.
    pub fn advance(&mut self, delta: u64) -> (fired: bool)
        requires
            old(self).wf(),
            delta <= MAX_DELTA,
        ensures
            final(self).wf(),
            final(self).frame_count == old(self).frame_count,
            final(self).timer.interval == old(self).timer.interval,
            final(self).timer.elapsed as int == (old(self).timer.elapsed + delta) % (
            old(self).timer.interval as int),
            fired == (old(self).timer.elapsed + delta >= old(self).timer.interval),
            fired ==> final(self).frame as int == (old(self).frame + 1) % (old(self).frame_count as int),
            !fired ==> final(self).frame == old(self).frame,
    {
        let fired = self.timer.tick(delta);
        if fired {
            self.frame = (self.frame + 1) % self.frame_count;
        }
        fired
    }
}

} // verus!
