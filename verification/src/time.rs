//! Game time: whether it runs, how fast, and the timer that paces the wages.

use vstd::prelude::*;

verus! {

/// Whether game time passes.
#[derive(Clone, Copy, Eq, Hash, Debug)]
pub enum TimeState {
    Paused,
    Running,
}

impl PartialEq for TimeState {
    fn eq(&self, other: &Self) -> (r: bool) {
        match (self, other) {
            (TimeState::Paused, TimeState::Paused) => true,
            (TimeState::Running, TimeState::Running) => true,
            _ => false,
        }
    }
}

impl vstd::std_specs::cmp::PartialEqSpecImpl for TimeState {
    open spec fn obeys_eq_spec() -> bool {
        true
    }

    open spec fn eq_spec(&self, other: &Self) -> bool {
        *self == *other
    }
}

impl Default for TimeState {
    fn default() -> (r: TimeState)
        ensures
            r == TimeState::Running,
    {
        TimeState::Running
    }
}

/// How fast game time passes.
#[derive(Clone, Copy, Eq, Hash, Debug)]
pub enum TimeSpeed {
    Normal,
    Fast,
    Faster,
    Fastest,
}

impl PartialEq for TimeSpeed {
    fn eq(&self, other: &Self) -> (r: bool) {
        match (self, other) {
            (TimeSpeed::Normal, TimeSpeed::Normal) => true,
            (TimeSpeed::Fast, TimeSpeed::Fast) => true,
            (TimeSpeed::Faster, TimeSpeed::Faster) => true,
            (TimeSpeed::Fastest, TimeSpeed::Fastest) => true,
            _ => false,
        }
    }
}

impl vstd::std_specs::cmp::PartialEqSpecImpl for TimeSpeed {
    open spec fn obeys_eq_spec() -> bool {
        true
    }

    open spec fn eq_spec(&self, other: &Self) -> bool {
        *self == *other
    }
}

impl Default for TimeSpeed {
    fn default() -> (r: TimeSpeed)
        ensures
            r == TimeSpeed::Normal,
    {
        TimeSpeed::Normal
    }
}

impl TimeSpeed {
    /// The time between two wage days at this speed, in nanoseconds: 7 s,
    /// 3.5 s, 1.75 s and 0.8525 s.
    pub open spec fn spec_interval_nanos(self) -> u64 {
        match self {
            TimeSpeed::Normal => 7_000_000_000,
            TimeSpeed::Fast => 3_500_000_000,
            TimeSpeed::Faster => 1_750_000_000,
            TimeSpeed::Fastest => 852_500_000,
        }
    }

    /// The time between two wage days at this speed, in nanoseconds.
    pub fn interval_nanos(self) -> (r: u64)
        ensures
            r == self.spec_interval_nanos(),
    {
        match self {
            TimeSpeed::Normal => 7_000_000_000,
            TimeSpeed::Fast => 3_500_000_000,
            TimeSpeed::Faster => 1_750_000_000,
            TimeSpeed::Fastest => 852_500_000,
        }
    }
}

/// How often a repeating timer with the given interval, which has run for
/// `elapsed`, completes its interval when `delta` more passes, as the engine
/// counts it: in 32 bits, and as often as it can count if the interval is zero.
pub open spec fn times_finished(interval: u64, elapsed: u64, delta: u64) -> int {
    if elapsed + delta < interval {
        0
    } else if interval == 0 {
        u32::MAX as int
    } else {
        ((elapsed + delta) / (interval as int)) % 0x1_0000_0000
    }
}

/// For how long such a timer has run in its current interval after `delta`.
pub open spec fn elapsed_after(interval: u64, elapsed: u64, delta: u64) -> int {
    if elapsed + delta < interval {
        elapsed + delta
    } else if interval == 0 {
        0
    } else {
        (elapsed + delta) % (interval as int)
    }
}

/// Advances a repeating timer of the engine by `delta_nanos`: `Timer::tick` of
/// bevy, on a timer made by `Timer::new` with the mode `TimerMode::Repeating`
/// and brought to `elapsed_nanos` by `Timer::set_elapsed`. Returns what
/// `Timer::just_finished` and `Timer::elapsed` say afterwards.
///
/// Not proved. The contract restates the engine's code: the time is added; if
/// the sum reaches the interval, the timer counts how often the interval fits
/// in it, keeping the low 32 bits of the count, and goes on with the remainder;
/// it has just finished if that count is not zero.
#[verifier::external_body]
fn repeating_timer_tick(interval_nanos: u64, elapsed_nanos: u64, delta_nanos: u64) -> (r: (
    bool,
    u64,
))
    ensures
        r.0 == (times_finished(interval_nanos, elapsed_nanos, delta_nanos) > 0),
        r.1 == elapsed_after(interval_nanos, elapsed_nanos, delta_nanos),
{
    let interval = std::time::Duration::from_nanos(interval_nanos);
    let mut timer = bevy::time::Timer::new(interval, bevy::time::TimerMode::Repeating);
    timer.set_elapsed(std::time::Duration::from_nanos(elapsed_nanos));
    timer.tick(std::time::Duration::from_nanos(delta_nanos));
    (timer.just_finished(), timer.elapsed().as_nanos() as u64)
}

/// The timer that paces the wages: it finishes once per interval and starts
/// over with the time that is left.
#[derive(Debug, Clone, Copy, PartialEq, Eq, Structural)]
pub struct GameTimer {
    pub interval_nanos: u64,
    pub elapsed_nanos: u64,
}

impl GameTimer {
    /// A timer with the given interval that has not run yet.
    pub fn from_nanos(interval_nanos: u64) -> (r: GameTimer)
        ensures
            r.interval_nanos == interval_nanos,
            r.elapsed_nanos == 0,
    {
        GameTimer { interval_nanos, elapsed_nanos: 0 }
    }

    /// The timer for a speed that has not run yet.
    pub open spec fn for_speed_spec(speed: TimeSpeed) -> GameTimer {
        GameTimer { interval_nanos: speed.spec_interval_nanos(), elapsed_nanos: 0 }
    }

    /// A timer for the given speed that has not run yet.
    pub fn for_speed(speed: TimeSpeed) -> (r: GameTimer)
        ensures
            r == GameTimer::for_speed_spec(speed),
    {
        GameTimer::from_nanos(speed.interval_nanos())
    }

    /// Whether the timer finishes its interval when `delta` more passes.
    pub open spec fn finishes(self, delta: u64) -> bool {
        times_finished(self.interval_nanos, self.elapsed_nanos, delta) > 0
    }

    /// The timer after `delta` more has passed.
    pub open spec fn after(self, delta: u64) -> GameTimer {
        GameTimer {
            interval_nanos: self.interval_nanos,
            elapsed_nanos: elapsed_after(self.interval_nanos, self.elapsed_nanos, delta) as u64,
        }
    }

    /// Lets `delta_nanos` pass, and says whether the timer finished its interval.
    pub fn tick(&mut self, delta_nanos: u64) -> (just_finished: bool)
        ensures
            just_finished == old(self).finishes(delta_nanos),
            *final(self) == old(self).after(delta_nanos),
    {
        let (just_finished, elapsed) = repeating_timer_tick(
            self.interval_nanos,
            self.elapsed_nanos,
            delta_nanos,
        );
        self.elapsed_nanos = elapsed;
        just_finished
    }
}

impl Default for GameTimer {
    fn default() -> (r: GameTimer)
        ensures
            r == GameTimer::for_speed_spec(TimeSpeed::Normal),
    {
        GameTimer::for_speed(TimeSpeed::Normal)
    }
}

/// A timer that is ticked in steps shorter than its interval finishes exactly
/// when the time it has run reaches the interval, and loses no time: the
/// interval it finished and the time it has run since add up to the time it
/// had run before and the step.
pub proof fn lemma_timer_keeps_time(timer: GameTimer, delta: u64)
    requires
        timer.elapsed_nanos < timer.interval_nanos,
        delta < timer.interval_nanos,
    ensures
        timer.finishes(delta) <==> timer.elapsed_nanos + delta >= timer.interval_nanos,
        timer.after(delta).elapsed_nanos < timer.interval_nanos,
        timer.after(delta).elapsed_nanos + (if timer.finishes(delta) {
            timer.interval_nanos as int
        } else {
            0
        }) == timer.elapsed_nanos + delta,
{
    let total = timer.elapsed_nanos + delta;
    let interval = timer.interval_nanos as int;
    if total >= interval {
        assert(total / interval == 1 && total % interval == total - interval) by (nonlinear_arith)
            requires
                interval <= total < 2 * interval,
        ;
    }
}

} // verus!
