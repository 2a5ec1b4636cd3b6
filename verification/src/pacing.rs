//! The two intervals that pace the game: the one at which the piece falls,
//! and the faster one at which a held key moves it sideways.

use vstd::prelude::*;
use bevy::time::{Timer, TimerMode};
use std::time::Duration;

verus! {

/// The interval at which the piece falls, in milliseconds.
pub const GRAVITY_INTERVAL_MS: u64 = 400;

/// The interval at which a held key moves the piece sideways, in
/// milliseconds.
pub const INPUT_INTERVAL_MS: u64 = 100;

/// The number of nanoseconds in a millisecond.
pub const NANOS_PER_MILLI: u64 = 1_000_000;

/// Which of the two intervals have elapsed.
#[derive(Clone, Copy, Debug, PartialEq, Eq, Structural)]
pub struct Due {
    /// The piece is to fall, or to be locked.
    pub gravity: bool,
    /// A held key is to move the piece.
    pub input: bool,
}

/// A period of so many milliseconds, in nanoseconds. A period too long to be
/// counted in 64 bits counts as the longest that can.
pub open spec fn period_nanos(millis: u64) -> nat {
    if millis * NANOS_PER_MILLI > u64::MAX {
        u64::MAX as nat
    } else {
        (millis * NANOS_PER_MILLI) as nat
    }
}

/// A repeating interval, to the rules: how long it is and how much of it has
/// passed, in nanoseconds.
pub struct IntervalView {
    pub period: nat,
    pub elapsed: nat,
}

impl IntervalView {
    /// Less than the period has passed, or the period is nothing.
    pub open spec fn wf(self) -> bool {
        self.elapsed < self.period || (self.period == 0 && self.elapsed == 0)
    }

    /// The interval elapses when `delta` more passes: the time that has
    /// passed reaches the period.
    pub open spec fn fires(self, delta: nat) -> bool {
        self.elapsed + delta >= self.period
    }

    /// The interval after `delta` more has passed. When it elapses it starts
    /// again, keeping the time by which the period was overrun.
    pub open spec fn after(self, delta: nat) -> IntervalView {
        let passed = self.elapsed + delta;
        IntervalView {
            period: self.period,
            elapsed: if !self.fires(delta) {
                passed
            } else if self.period == 0 {
                0
            } else {
                passed % self.period
            },
        }
    }
}

/// The two timers, to the rules.
pub struct TimersView {
    pub gravity: IntervalView,
    pub input: IntervalView,
}

impl TimersView {
    /// Which of the intervals elapse when `delta` more passes.
    pub open spec fn due(self, delta: nat) -> Due {
        Due { gravity: self.gravity.fires(delta), input: self.input.fires(delta) }
    }

    /// The timers after `delta` more has passed.
    pub open spec fn after(self, delta: nat) -> TimersView {
        TimersView { gravity: self.gravity.after(delta), input: self.input.after(delta) }
    }
}

/// Lets a repeating timer of `bevy` do one advance: a timer of the given
/// period is made (`Timer::new` with `TimerMode::Repeating`), set to the time
/// that has passed (`Timer::set_elapsed`) and advanced by `delta`
/// (`Timer::tick`); then it is asked whether its period elapsed
/// (`Timer::finished`) and how much has passed since (`Timer::elapsed`). All
/// times are in nanoseconds. The contract claims what `Timer::tick` does to a
/// running timer that repeats: it adds `delta` to the time that has passed;
/// the timer has finished if that reaches the period; and if so the time
/// that has passed becomes the remainder by the period, or nothing where the
/// period is nothing.
#[verifier::external_body]
fn tick_repeating(period: u64, elapsed: u64, delta: u64) -> (out: (bool, u64))
    ensures
        out.0 == (IntervalView { period: period as nat, elapsed: elapsed as nat }).fires(delta as nat),
        out.1 == (IntervalView { period: period as nat, elapsed: elapsed as nat }).after(delta as nat).elapsed,
{
    let mut timer = Timer::new(Duration::from_nanos(period), TimerMode::Repeating);
    timer.set_elapsed(Duration::from_nanos(elapsed));
    timer.tick(Duration::from_nanos(delta));
    (timer.finished(), timer.elapsed().as_nanos() as u64)
}

/// A repeating interval.
struct Interval {
    period: u64,
    elapsed: u64,
}

impl View for Interval {
    type V = IntervalView;

    closed spec fn view(&self) -> IntervalView {
        IntervalView { period: self.period as nat, elapsed: self.elapsed as nat }
    }
}

impl Interval {
    /// An interval of so many milliseconds, of which nothing has passed.
    fn every(millis: u64) -> (interval: Interval)
        ensures
            interval@ == (IntervalView { period: period_nanos(millis), elapsed: 0 }),
    {
        let period = match millis.checked_mul(NANOS_PER_MILLI) {
            Some(nanos) => nanos,
            None => u64::MAX,
        };
        Interval { period, elapsed: 0 }
    }

    /// Lets `delta` nanoseconds pass, and says whether the interval elapsed.
    fn advance(&mut self, delta: u64) -> (fired: bool)
        ensures
            fired == old(self)@.fires(delta as nat),
            final(self)@ == old(self)@.after(delta as nat),
    {
        let (fired, elapsed) = tick_repeating(self.period, self.elapsed, delta);
        self.elapsed = elapsed;
        fired
    }
}

/// The two timers of the game.
pub struct GameTimers {
    gravity: Interval,
    input: Interval,
}

impl View for GameTimers {
    type V = TimersView;

    closed spec fn view(&self) -> TimersView {
        TimersView { gravity: self.gravity@, input: self.input@ }
    }
}

impl GameTimers {
    /// Timers with the standard intervals, of which nothing has passed.
    pub fn new() -> (timers: GameTimers)
        ensures
            timers@ == (TimersView {
                gravity: IntervalView { period: period_nanos(GRAVITY_INTERVAL_MS), elapsed: 0 },
                input: IntervalView { period: period_nanos(INPUT_INTERVAL_MS), elapsed: 0 },
            }),
            timers@.gravity.period == 400_000_000,
            timers@.input.period == 100_000_000,
    {
        GameTimers::with_intervals(GRAVITY_INTERVAL_MS, INPUT_INTERVAL_MS)
    }

    /// Timers with the given intervals, in milliseconds, of which nothing has
    /// passed.
    pub fn with_intervals(gravity_millis: u64, input_millis: u64) -> (timers: GameTimers)
        ensures
            timers@ == (TimersView {
                gravity: IntervalView { period: period_nanos(gravity_millis), elapsed: 0 },
                input: IntervalView { period: period_nanos(input_millis), elapsed: 0 },
            }),
    {
        GameTimers { gravity: Interval::every(gravity_millis), input: Interval::every(input_millis) }
    }

    /// Advances both timers by the time that has passed, in nanoseconds, and
    /// says which of the intervals have elapsed. An interval elapses when the
    /// time that has passed since it last did reaches its period; it then
    /// starts again, keeping the time by which the period was overrun.
    pub fn advance(&mut self, delta_nanos: u64) -> (due: Due)
        ensures
            due == old(self)@.due(delta_nanos as nat),
            final(self)@ == old(self)@.after(delta_nanos as nat),
    {
        let gravity = self.gravity.advance(delta_nanos);
        let input = self.input.advance(delta_nanos);
        Due { gravity, input }
    }
}

/// An interval of which less than the period has passed elapses exactly once
/// while one period passes, whether in one advance or in two, and then has as
/// much of it behind as before.
pub proof fn lemma_interval_repeats(interval: IntervalView, first: nat, second: nat)
    requires
        interval.wf(),
        interval.period > 0,
        first + second == interval.period,
    ensures
        interval.after(first).wf(),
        interval.fires(first) != interval.after(first).fires(second),
        interval.after(first).after(second) == interval,
{
    let p = interval.period as int;
    let e = interval.elapsed as int;
    if interval.fires(first) {
        assert((e + first) % p == e + first - p) by {
            vstd::arithmetic::div_mod::lemma_small_mod((e + first - p) as nat, p as nat);
            vstd::arithmetic::div_mod::lemma_mod_add_multiples_vanish(e + first - p, p);
        }
    } else {
        assert((e + first + second) % p == e) by {
            vstd::arithmetic::div_mod::lemma_small_mod(e as nat, p as nat);
            vstd::arithmetic::div_mod::lemma_mod_add_multiples_vanish(e, p);
        }
    }
}

} // verus!
