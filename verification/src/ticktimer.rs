//! The clock that paces the simulation: it gathers the time of the frames and
//! reports each time a whole interval has gone by.

use vstd::prelude::*;

verus! {

/// Time between two steps of the simulation, in nanoseconds.
pub const TICK_INTERVAL: u64 = 100_000_000;

/// A repeating timer. Times are in nanoseconds.
#[derive(Clone, Copy, PartialEq, Eq, Structural, Debug)]
pub struct TickTimer {
    /// Length of one interval.
    pub interval: u64,
    /// Time gathered since the last interval ended.
    pub elapsed: u64,
    /// A paused timer gathers no time.
    pub paused: bool,
    /// Whether the latest call of `tick` ended an interval.
    pub just_finished: bool,
}

impl TickTimer {
    /// The time gathered is short of one interval.
    pub open spec fn wf(self) -> bool {
        self.elapsed < self.interval
    }

    /// The timer after a frame of `delta` nanoseconds. A paused timer stays
    /// as it is and reports nothing. A running timer adds `delta` to the time
    /// it has gathered, up to the largest number it can hold; when that
    /// reaches the interval it reports so and keeps what is left over after
    /// all whole intervals are taken away.
    pub open spec fn ticked(self, delta: u64) -> TickTimer {
        let total = if self.elapsed + delta > u64::MAX {
            u64::MAX as int
        } else {
            self.elapsed + delta
        };
        if self.paused {
            TickTimer { just_finished: false, ..self }
        } else if self.interval == 0 {
            TickTimer { elapsed: 0, just_finished: true, ..self }
        } else if total >= self.interval {
            TickTimer { elapsed: (total % (self.interval as int)) as u64, just_finished: true, ..self }
        } else {
            TickTimer { elapsed: total as u64, just_finished: false, ..self }
        }
    }

    /// The timer with nothing gathered and nothing to report.
    pub open spec fn cleared(self) -> TickTimer {
        TickTimer { elapsed: 0, just_finished: false, ..self }
    }

    /// A running timer with the given interval and nothing gathered.
    pub fn new(interval: u64) -> (t: TickTimer)
        ensures
            t == (TickTimer { interval, elapsed: 0, paused: false, just_finished: false }),
    {
        TickTimer { interval, elapsed: 0, paused: false, just_finished: false }
    }

    /// Lets `delta` nanoseconds go by.
    pub fn tick(&mut self, delta: u64)
        ensures
            *final(self) == old(self).ticked(delta),
            old(self).interval > 0 ==> final(self).wf() || old(self).paused,
    {
        if self.paused {
            self.just_finished = false;
            return ;
        }
        let total = self.elapsed.saturating_add(delta);
        if self.interval == 0 {
            self.elapsed = 0;
            self.just_finished = true;
        } else if total >= self.interval {
            self.elapsed = total % self.interval;
            self.just_finished = true;
        } else {
            self.elapsed = total;
            self.just_finished = false;
        }
    }

    /// Forgets the time gathered and the latest report. Whether the timer is
    /// paused does not change.
    pub fn reset(&mut self)
        ensures
            *final(self) == old(self).cleared(),
    {
        self.elapsed = 0;
        self.just_finished = false;
    }

    /// Stops the timer from gathering time.
    pub fn pause(&mut self)
        ensures
            *final(self) == (TickTimer { paused: true, ..*old(self) }),
    {
        self.paused = true;
    }

    /// Lets the timer gather time again.
    pub fn unpause(&mut self)
        ensures
            *final(self) == (TickTimer { paused: false, ..*old(self) }),
    {
        self.paused = false;
    }
}

impl Default for TickTimer {
    fn default() -> (t: TickTimer)
        ensures
            t == (TickTimer {
                interval: TICK_INTERVAL,
                elapsed: 0,
                paused: false,
                just_finished: false,
            }),
    {
        TickTimer::new(TICK_INTERVAL)
    }
}

/// Whether the latest frame ended an interval.
pub fn tick_passed(timer: &TickTimer) -> (passed: bool)
    ensures
        passed == timer.just_finished,
{
    timer.just_finished
}

/// Lets the time of one frame go by.
pub fn advance_tick_timer(delta: u64, timer: &mut TickTimer)
    ensures
        *final(timer) == old(timer).ticked(delta),
{
    timer.tick(delta);
}

/// Stops the timer and forgets what it has gathered, so that it does not
/// report a stale interval when it runs again.
pub fn pause_tick_timer(timer: &mut TickTimer)
    ensures
        *final(timer) == (TickTimer { paused: true, ..old(timer).cleared() }),
{
    timer.reset();
    timer.pause();
}

/// Lets the timer run again.
pub fn unpause_tick_timer(timer: &mut TickTimer)
    ensures
        *final(timer) == (TickTimer { paused: false, ..*old(timer) }),
{
    timer.unpause();
}

/// A timer that runs reports an interval exactly when the time gathered and
/// the time of the frame together reach the interval, and what it keeps is
/// then short of one interval. A paused timer reports nothing and keeps what
/// it had.
pub proof fn lemma_ticked(t: TickTimer, delta: u64)
    requires
        t.interval > 0,
    ensures
        t.paused ==> !t.ticked(delta).just_finished && t.ticked(delta).elapsed == t.elapsed,
        !t.paused ==> (t.ticked(delta).just_finished <==> t.elapsed + delta >= t.interval),
        !t.paused ==> t.ticked(delta).wf(),
        !t.paused && t.elapsed + delta <= u64::MAX ==> (t.elapsed + delta - t.ticked(
            delta,
        ).elapsed) % (t.interval as int) == 0,
{
    if !t.paused && t.elapsed + delta <= u64::MAX {
        let total = t.elapsed + delta;
        let i = t.interval as int;
        if total >= i {
            assert((total - total % i) % i == 0) by (nonlinear_arith)
                requires
                    i > 0,
            ;
        } else {
            assert(0int % i == 0) by (nonlinear_arith)
                requires
                    i > 0,
            ;
        }
    }
}

} // verus!
