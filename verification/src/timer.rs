//! Countdown timers.
//!
//! The timers are `bevy::time::Timer` values. Verus cannot look inside one, so
//! this module names what a timer holds ([`timer_state`]) and states, for each
//! method the simulation calls, how that method changes it. None of this is
//! proved here: it is read off the timer's source.

use vstd::prelude::*;
use bevy::time::{Timer, TimerMode};
use std::time::Duration;

verus! {

/// `bevy::time::Timer`, made known to Verus as a type whose inside it does
/// not see.
#[verifier::external_type_specification]
#[verifier::external_body]
pub struct ExTimer(Timer);

/// What a timer holds. Times are in nanoseconds.
pub struct TimerState {
    /// Time counted since the timer was made, reset, or last wrapped round.
    pub elapsed: nat,
    /// The time after which the timer is finished.
    pub duration: nat,
    /// A repeating timer starts over when it finishes; another one stays
    /// finished until it is reset.
    pub repeating: bool,
    /// For a repeating timer: the last tick reached the duration. For another
    /// one: the duration was reached since the last reset.
    pub finished: bool,
    /// A paused timer ignores ticks.
    pub paused: bool,
}

impl TimerState {
    /// The timer runs, has not counted past its duration, and its duration is
    /// a `u64` number of nanoseconds.
    pub open spec fn wf(self) -> bool {
        &&& !self.paused
        &&& self.elapsed <= self.duration
        &&& self.duration <= u64::MAX
    }

    /// A running timer that has counted nothing yet.
    pub open spec fn fresh(duration: nat, repeating: bool) -> TimerState {
        TimerState { elapsed: 0, duration, repeating, finished: false, paused: false }
    }

    /// The timer after a tick of `delta` nanoseconds, if it is not paused.
    ///
    /// A timer that is not repeating and has finished stays as it is. Otherwise
    /// the time is added; below the duration the timer is not finished. At or
    /// above it the timer is finished, and its elapsed time is the duration, or
    /// for a repeating timer the remainder of the division by the duration
    /// (zero for a duration of zero).
    pub open spec fn advanced(self, delta: nat) -> TimerState {
        let reached = self.elapsed + delta;
        if !self.repeating && self.finished {
            self
        } else if reached < self.duration {
            TimerState { elapsed: reached, finished: false, ..self }
        } else if !self.repeating {
            TimerState { elapsed: self.duration, finished: true, ..self }
        } else if self.duration == 0 {
            TimerState { elapsed: 0, finished: true, ..self }
        } else {
            TimerState { elapsed: reached % self.duration, finished: true, ..self }
        }
    }

    /// The timer after a reset: nothing counted, not finished.
    pub open spec fn rewound(self) -> TimerState {
        TimerState { elapsed: 0, finished: false, ..self }
    }
}

/// What `timer` holds.
pub uninterp spec fn timer_state(timer: Timer) -> TimerState;

/// `Timer::new`: a running timer with the given duration and mode that has
/// counted nothing and is not finished.
#[verifier::external_body]
pub(crate) fn timer_new(duration_nanos: u64, repeating: bool) -> (timer: Timer)
    ensures
        timer_state(timer) == TimerState::fresh(duration_nanos as nat, repeating),
{
    let mode = if repeating { TimerMode::Repeating } else { TimerMode::Once };
    Timer::new(Duration::from_nanos(duration_nanos), mode)
}

/// `Timer::tick`: advances a timer that is not paused as
/// [`TimerState::advanced`] says. The bounds keep the sum of the two times
/// inside a `Duration`, and the remainder inside a `u64`.
#[verifier::external_body]
pub(crate) fn timer_tick(timer: &mut Timer, delta_nanos: u64)
    requires
        !timer_state(*old(timer)).paused,
        timer_state(*old(timer)).elapsed <= u64::MAX,
        timer_state(*old(timer)).duration <= u64::MAX,
    ensures
        timer_state(*final(timer)) == timer_state(*old(timer)).advanced(delta_nanos as nat),
{
    timer.tick(Duration::from_nanos(delta_nanos));
}

/// `Timer::finished`: the timer's finished flag.
#[verifier::external_body]
pub(crate) fn timer_finished(timer: &Timer) -> (finished: bool)
    ensures
        finished == timer_state(*timer).finished,
{
    timer.finished()
}

/// `Timer::reset`: sets the elapsed time to zero and clears the finished flag;
/// duration, mode and pause are kept.
#[verifier::external_body]
pub(crate) fn timer_reset(timer: &mut Timer)
    ensures
        timer_state(*final(timer)) == timer_state(*old(timer)).rewound(),
{
    timer.reset();
}

/// A repeating timer finishes in the tick in which the time counted reaches
/// its duration, and in no other: until then the time adds up.
pub proof fn lemma_repeating_finishes_when_due(state: TimerState, delta: nat)
    requires
        state.repeating,
    ensures
        state.advanced(delta).finished <==> state.elapsed + delta >= state.duration,
        !state.advanced(delta).finished ==> state.advanced(delta).elapsed == state.elapsed + delta,
{
}

/// Ticking keeps a timer well-formed.
pub proof fn lemma_advanced_wf(state: TimerState, delta: nat)
    requires
        state.wf(),
    ensures
        state.advanced(delta).wf(),
        state.advanced(delta).duration == state.duration,
        state.advanced(delta).repeating == state.repeating,
{
    let reached = state.elapsed + delta;
    if state.repeating && reached >= state.duration && state.duration > 0 {
        assert(reached % state.duration < state.duration) by (nonlinear_arith)
            requires
                state.duration > 0,
                reached >= 0,
        ;
    }
}

} // verus!
