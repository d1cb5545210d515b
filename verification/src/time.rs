//! The time step of a tick and countdown timers.

use vstd::prelude::*;
use crate::constants::CAPPED_DELTA_MICROS;

verus! {

/// Largest duration a timer can be given, in milliseconds.
pub const MAX_TIMER_MILLIS: u64 = 18_000_000_000_000_000;

/// `delta * speed / 1000`: real microseconds turned into simulated ones.
pub open spec fn scale_micros(delta: int, speed: int) -> int {
    delta * speed / 1000
}

/// The per-tick context handed to every time-scaled subsystem: the real time
/// that passed, capped, and the global simulation speed.
///
/// The cap holds for everything that runs on the tick: after a stall not
/// only movement and flight but also the production queues, the wait between
/// changes of strategy and the lingering of landed projectiles advance by
/// the capped time only.
#[derive(Clone, Copy, Debug)]
pub struct Tick {
    delta: u64,
    speed: u32,
}

impl Tick {
    #[verifier::type_invariant]
    spec fn inv(self) -> bool {
        self.delta <= CAPPED_DELTA_MICROS
    }

    /// Real microseconds this tick simulates, at most `CAPPED_DELTA_MICROS`.
    pub closed spec fn spec_delta(&self) -> u64 {
        self.delta
    }

    /// Global simulation speed, in thousandths.
    pub closed spec fn spec_speed(&self) -> u32 {
        self.speed
    }

    /// Simulated microseconds that pass in this tick.
    pub open spec fn spec_scaled_delta(&self) -> int {
        scale_micros(self.spec_delta() as int, self.spec_speed() as int)
    }

    /// A tick for `delta_micros` of real time at simulation speed `speed`
    /// (thousandths). Time beyond the cap is dropped.
    pub fn new(delta_micros: u64, speed: u32) -> (tick: Tick)
        ensures
            tick.spec_delta() == if delta_micros <= CAPPED_DELTA_MICROS {
                delta_micros
            } else {
                CAPPED_DELTA_MICROS
            },
            tick.spec_speed() == speed,
    {
        let delta: u64 = if delta_micros <= CAPPED_DELTA_MICROS {
            delta_micros
        } else {
            CAPPED_DELTA_MICROS
        };
        Tick { delta, speed }
    }

    #[verifier::when_used_as_spec(spec_delta)]
    pub fn delta(&self) -> (d: u64)
        ensures
            d == self.spec_delta(),
            d <= CAPPED_DELTA_MICROS,
    {
        proof {
            use_type_invariant(self);
        }
        self.delta
    }

    #[verifier::when_used_as_spec(spec_speed)]
    pub fn speed(&self) -> (s: u32)
        ensures
            s == self.spec_speed(),
    {
        self.speed
    }

    /// Simulated microseconds that pass in this tick.
    pub fn scaled_delta(&self) -> (d: u64)
        ensures
            d == self.spec_scaled_delta(),
    {
        proof {
            use_type_invariant(self);
        }
        assert(self.delta * self.speed <= 50_000 * 0xffff_ffff) by (nonlinear_arith)
            requires
                self.delta <= 50_000,
                self.speed <= 0xffff_ffff,
        ;
        self.delta * (self.speed as u64) / 1000
    }
}

/// A countdown that runs once: it collects elapsed time, in microseconds, up
/// to its duration and then stays finished.
#[derive(Clone, Copy, Debug, PartialEq, Eq, Structural)]
pub struct Timer {
    pub duration: u64,
    pub elapsed: u64,
    pub finished: bool,
}

impl Timer {
    /// Elapsed time never passes the duration, and a finished timer has
    /// reached it.
    pub open spec fn wf(self) -> bool {
        &&& self.elapsed <= self.duration
        &&& self.finished ==> self.elapsed == self.duration
    }

    /// A fresh timer that runs for `duration` microseconds.
    pub open spec fn fresh(duration: u64) -> Timer {
        Timer { duration, elapsed: 0, finished: false }
    }

    /// Whether `delta` more microseconds finish the timer in that very step.
    pub open spec fn finishes_in(self, delta: u64) -> bool {
        !self.finished && self.elapsed + delta >= self.duration
    }

    /// The state after `delta` more microseconds. A finished timer stays as
    /// it is; otherwise time is added, and the timer finishes once the
    /// duration is reached.
    pub open spec fn ticked(self, delta: u64) -> Timer {
        if self.finished {
            self
        } else if self.elapsed + delta >= self.duration {
            Timer { duration: self.duration, elapsed: self.duration, finished: true }
        } else {
            Timer {
                duration: self.duration,
                elapsed: (self.elapsed + delta) as u64,
                finished: false,
            }
        }
    }

    /// A fresh timer of `millis` milliseconds.
    pub fn from_millis(millis: u64) -> (timer: Timer)
        requires
            millis <= MAX_TIMER_MILLIS,
        ensures
            timer == Timer::fresh((millis * 1000) as u64),
            timer.wf(),
    {
        Timer { duration: millis * 1000, elapsed: 0, finished: false }
    }

    /// Advances the timer by `delta` microseconds and reports whether it
    /// finished in this step.
    pub fn tick(&mut self, delta: u64) -> (just_finished: bool)
        ensures
            *final(self) == old(self).ticked(delta),
            just_finished == old(self).finishes_in(delta),
            old(self).wf() ==> final(self).wf(),
    {
        if self.finished {
            false
        } else if self.elapsed >= self.duration || delta >= self.duration - self.elapsed {
            self.elapsed = self.duration;
            self.finished = true;
            true
        } else {
            self.elapsed = self.elapsed + delta;
            false
        }
    }

    /// Whether the duration has been reached.
    pub fn is_finished(&self) -> (done: bool)
        ensures
            done == self.finished,
    {
        self.finished
    }

    /// Starts the countdown over.
    pub fn reset(&mut self)
        ensures
            *final(self) == Timer::fresh(old(self).duration),
    {
        self.elapsed = 0;
        self.finished = false;
    }
}

} // verus!
