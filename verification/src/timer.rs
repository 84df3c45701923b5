//! A one-shot countdown with "just finished" edge detection.
//!
//! Time is counted in whole milliseconds.

use vstd::prelude::*;

verus! {

/// A one-shot countdown.
///
/// `elapsed` grows with every tick until it reaches `duration`. The tick on
/// which that happens sets `just_finished`; every later tick clears it again,
/// until the timer is reset.
#[derive(Clone, Copy, Debug, PartialEq, Eq, Structural)]
pub struct Timer {
    /// Milliseconds counted so far.
    pub elapsed: u64,
    /// Milliseconds after which the timer finishes.
    pub duration: u64,
    /// Whether a tick has reached the duration since the last reset.
    pub finished: bool,
    /// Whether the most recent tick was the one that finished the timer.
    pub just_finished: bool,
}

impl Timer {
    /// A timer of the given duration on which no time has passed.
    pub open spec fn fresh(duration: u64) -> Timer {
        Timer { elapsed: 0, duration, finished: false, just_finished: false }
    }

    /// Whether a tick of `dt` milliseconds reaches the duration.
    pub open spec fn reaches(self, dt: u64) -> bool {
        self.elapsed + dt >= self.duration
    }

    /// The timer after a tick of `dt` milliseconds.
    pub open spec fn ticked(self, dt: u64) -> Timer {
        if self.finished {
            Timer { just_finished: false, ..self }
        } else if self.reaches(dt) {
            Timer { elapsed: self.duration, finished: true, just_finished: true, ..self }
        } else {
            Timer {
                elapsed: (self.elapsed + dt) as u64,
                finished: false,
                just_finished: false,
                ..self
            }
        }
    }

    /// Milliseconds still to run, zero once the duration is reached.
    pub open spec fn spec_remaining(self) -> u64 {
        if self.elapsed >= self.duration {
            0
        } else {
            (self.duration - self.elapsed) as u64
        }
    }

    /// `scale` times the share of the duration that is still to run, rounded
    /// down. A timer of duration zero has nothing left.
    pub open spec fn spec_scaled_left(self, scale: u16) -> int {
        if self.duration == 0 {
            0
        } else {
            self.spec_remaining() as int * scale as int / self.duration as int
        }
    }

    pub fn new(duration: u64) -> (timer: Timer)
        ensures
            timer == Timer::fresh(duration),
    {
        Timer { elapsed: 0, duration, finished: false, just_finished: false }
    }

    /// Advances the timer by `dt` milliseconds and reports whether this tick
    /// finished it.
    pub fn tick(&mut self, dt: u64) -> (fired: bool)
        ensures
            *final(self) == old(self).ticked(dt),
            fired == old(self).ticked(dt).just_finished,
            fired <==> !old(self).finished && old(self).reaches(dt),
    {
        if self.finished {
            self.just_finished = false;
        } else if self.elapsed >= self.duration || dt >= self.duration - self.elapsed {
            self.elapsed = self.duration;
            self.finished = true;
            self.just_finished = true;
        } else {
            self.elapsed = self.elapsed + dt;
            self.just_finished = false;
        }
        self.just_finished
    }

    /// Starts the countdown again from zero, with the same duration.
    pub fn reset(&mut self)
        ensures
            *final(self) == Timer::fresh(old(self).duration),
    {
        self.elapsed = 0;
        self.finished = false;
        self.just_finished = false;
    }

    /// Changes the duration and nothing else.
    pub fn set_duration(&mut self, duration: u64)
        ensures
            *final(self) == (Timer { duration, ..*old(self) }),
    {
        self.duration = duration;
    }

    pub fn remaining(&self) -> (left: u64)
        ensures
            left == self.spec_remaining(),
    {
        if self.elapsed >= self.duration {
            0
        } else {
            self.duration - self.elapsed
        }
    }

    /// `scale` times the share of the duration that is still to run, rounded
    /// down: `scale` on a fresh timer, zero on a finished one.
    pub fn scaled_left(&self, scale: u16) -> (part: u16)
        ensures
            part == self.spec_scaled_left(scale),
            part <= scale,
    {
        if self.duration == 0 {
            return 0;
        }
        let left: u128 = self.remaining() as u128;
        let whole: u128 = self.duration as u128;
        let wide: u128 = scale as u128;
        assert(left * wide <= whole * wide) by (nonlinear_arith)
            requires
                left <= whole,
        ;
        assert(left * wide <= 0xffff_ffff_ffff_ffff * 0xffff) by (nonlinear_arith)
            requires
                left <= 0xffff_ffff_ffff_ffff,
                wide <= 0xffff,
        ;
        let part: u128 = left * wide / whole;
        assert(part <= wide) by (nonlinear_arith)
            requires
                part as int == (left as int * wide as int) / whole as int,
                left * wide <= whole * wide,
                whole > 0,
        ;
        part as u16
    }
}

/// A finished timer does not fire again, however often it is ticked: only a
/// reset lets it fire once more.
pub proof fn lemma_timer_fires_once(timer: Timer, first: u64, second: u64)
    ensures
        timer.ticked(first).just_finished ==> timer.ticked(first).finished,
        timer.ticked(first).finished ==> !timer.ticked(first).ticked(second).just_finished,
        timer.ticked(first).finished ==> timer.ticked(first).ticked(second).finished,
{
}

/// A fresh timer fires on the first tick that brings the time counted to its
/// duration, and on no tick before.
pub proof fn lemma_timer_fires_at_duration(duration: u64, first: u64, second: u64)
    requires
        first + second <= u64::MAX,
    ensures
        Timer::fresh(duration).ticked(first).just_finished <==> first >= duration,
        first < duration ==> (Timer::fresh(duration).ticked(first).ticked(second).just_finished
            <==> first + second >= duration),
{
}

} // verus!
