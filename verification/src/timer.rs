//! A countdown timer driven by elapsed time, measured in whole nanoseconds.

use vstd::prelude::*;

verus! {

/// Nanoseconds in one millisecond.
pub const NANOS_PER_MILLI: u64 = 1_000_000;

/// A timer that accumulates elapsed time and fires when the accumulated time
/// reaches its duration.
///
/// A repeating timer starts over each time it fires and keeps the time by
/// which it overshot. A one-shot timer stays finished until it is reset.
#[derive(Clone, Copy, Debug, PartialEq, Eq, Structural)]
pub struct Timer {
    /// The time to accumulate before the timer fires, in nanoseconds.
    pub duration: u64,
    /// The time accumulated so far, in nanoseconds.
    pub elapsed: u64,
    /// Whether the timer starts over after it fires.
    pub repeating: bool,
    /// Whether the timer has reached its duration.
    pub finished: bool,
    /// Whether the timer reached its duration during the latest tick.
    pub due: bool,
    /// Whether the timer ignores ticks.
    pub paused: bool,
}

impl Timer {
    /// The timer that `new` builds: nothing accumulated, running, not fired.
    pub open spec fn fresh(duration: u64, repeating: bool) -> Timer {
        Timer { duration, elapsed: 0, repeating, finished: false, due: false, paused: false }
    }

    /// The timer after a tick of `delta` nanoseconds.
    ///
    /// A paused timer accumulates nothing and is not due. A finished one-shot
    /// timer stays as it is and is not due. Otherwise the tick is added to the
    /// accumulated time; where the sum reaches the duration the timer is due,
    /// and a repeating timer keeps the remainder while a one-shot timer stops
    /// at its duration.
    pub open spec fn ticked(self, delta: u64) -> Timer {
        let total = self.elapsed + delta;
        if self.paused {
            Timer { due: false, finished: !self.repeating && self.finished, ..self }
        } else if !self.repeating && self.finished {
            Timer { due: false, ..self }
        } else if total >= self.duration {
            let rest = if !self.repeating {
                self.duration
            } else if self.duration == 0 {
                0
            } else {
                (total % (self.duration as int)) as u64
            };
            Timer { elapsed: rest, finished: true, due: true, ..self }
        } else {
            Timer { elapsed: total as u64, finished: false, due: false, ..self }
        }
    }

    /// A running timer with nothing accumulated.
    pub fn new(duration: u64, repeating: bool) -> (timer: Timer)
        ensures
            timer == Timer::fresh(duration, repeating),
    {
        Timer { duration, elapsed: 0, repeating, finished: false, due: false, paused: false }
    }

    /// A running timer whose duration is given in milliseconds; a duration
    /// beyond the range of nanoseconds is held at the largest one.
    pub fn from_millis(millis: u64, repeating: bool) -> (timer: Timer)
        ensures
            timer == Timer::fresh(
                if millis * NANOS_PER_MILLI <= u64::MAX {
                    (millis * NANOS_PER_MILLI) as u64
                } else {
                    u64::MAX
                },
                repeating,
            ),
    {
        let duration: u64 = if millis <= u64::MAX / NANOS_PER_MILLI {
            millis * NANOS_PER_MILLI
        } else {
            u64::MAX
        };
        Timer::new(duration, repeating)
    }

    /// Advances the timer by `delta` nanoseconds.
    pub fn tick(&mut self, delta: u64)
        ensures
            *final(self) == old(self).ticked(delta),
    {
        if self.paused {
            self.due = false;
            if self.repeating {
                self.finished = false;
            }
            return ;
        }
        if !self.repeating && self.finished {
            self.due = false;
            return ;
        }
        let total: u128 = self.elapsed as u128 + delta as u128;
        let duration: u128 = self.duration as u128;
        if total >= duration {
            if !self.repeating {
                self.elapsed = self.duration;
            } else if self.duration == 0 {
                self.elapsed = 0;
            } else {
                let rest: u128 = total % duration;
                self.elapsed = rest as u64;
            }
            self.finished = true;
            self.due = true;
        } else {
            self.elapsed = total as u64;
            self.finished = false;
            self.due = false;
        }
    }

    /// Whether the timer reached its duration during the latest tick.
    pub fn just_finished(&self) -> (due: bool)
        ensures
            due == self.due,
    {
        self.due
    }

    /// Whether the timer has reached its duration.
    pub fn finished(&self) -> (finished: bool)
        ensures
            finished == self.finished,
    {
        self.finished
    }

    /// Whether the timer ignores ticks.
    pub fn paused(&self) -> (paused: bool)
        ensures
            paused == self.paused,
    {
        self.paused
    }

    /// The time the timer accumulates before it fires, in nanoseconds.
    pub fn duration(&self) -> (duration: u64)
        ensures
            duration == self.duration,
    {
        self.duration
    }

    /// The time accumulated so far, in nanoseconds.
    pub fn elapsed(&self) -> (elapsed: u64)
        ensures
            elapsed == self.elapsed,
    {
        self.elapsed
    }

    /// Stops the timer from accumulating time.
    pub fn pause(&mut self)
        ensures
            *final(self) == (Timer { paused: true, ..*old(self) }),
    {
        self.paused = true;
    }

    /// Lets the timer accumulate time again.
    pub fn unpause(&mut self)
        ensures
            *final(self) == (Timer { paused: false, ..*old(self) }),
    {
        self.paused = false;
    }

    /// Clears the accumulated time and the fired state; the duration, the
    /// mode and the pause stay.
    pub fn reset(&mut self)
        ensures
            *final(self) == (Timer { elapsed: 0, finished: false, due: false, ..*old(self) }),
    {
        self.elapsed = 0;
        self.finished = false;
        self.due = false;
    }

    /// Changes the duration. The accumulated time stays; the next tick
    /// compares it with the new duration.
    pub fn set_duration(&mut self, duration: u64)
        ensures
            *final(self) == (Timer { duration, ..*old(self) }),
    {
        self.duration = duration;
    }

    /// Overwrites the accumulated time.
    pub fn set_elapsed(&mut self, elapsed: u64)
        ensures
            *final(self) == (Timer { elapsed, ..*old(self) }),
    {
        self.elapsed = elapsed;
    }
}

/// A running timer never fires on a tick that leaves the accumulated time
/// below the duration, and always fires on one that reaches it.
pub proof fn lemma_due_iff_duration_reached(timer: Timer, delta: u64)
    requires
        !timer.paused,
        timer.repeating || !timer.finished,
    ensures
        timer.ticked(delta).due <==> timer.elapsed + delta >= timer.duration,
{
}

/// A repeating timer with a positive duration loses no time: what it holds
/// after a tick is what it held before plus the tick, less a whole number of
/// durations, and lies below the duration once it has fired.
pub proof fn lemma_repeating_keeps_remainder(timer: Timer, delta: u64)
    requires
        !timer.paused,
        timer.repeating,
        timer.duration > 0,
    ensures
        timer.ticked(delta).elapsed as int % timer.duration as int == (timer.elapsed + delta)
            % timer.duration as int,
        timer.ticked(delta).due ==> timer.ticked(delta).elapsed < timer.duration,
{
    let total = timer.elapsed + delta;
    let d = timer.duration as int;
    if total >= d {
        vstd::arithmetic::div_mod::lemma_mod_twice(total, d);
        vstd::arithmetic::div_mod::lemma_mod_pos_bound(total, d);
    }
}

/// A paused timer holds its accumulated time and is not due.
pub proof fn lemma_paused_holds(timer: Timer, delta: u64)
    requires
        timer.paused,
    ensures
        timer.ticked(delta).elapsed == timer.elapsed,
        !timer.ticked(delta).due,
        timer.ticked(delta).paused,
{
}

} // verus!
