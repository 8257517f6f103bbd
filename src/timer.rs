//! A restartable countdown with a one-shot and a repeating mode.
use vstd::prelude::*;
use std::time::Duration;

verus! {

#[derive(Clone, Copy, Debug, PartialEq, Eq, Structural)]
pub enum TimerMode {
    /// Finishes once and stays finished until reset.
    Once,
    /// Finishes each time the accumulated time reaches the duration, then
    /// keeps the remainder.
    Repeating,
}

/// A countdown over microseconds.
#[derive(Clone, Copy, Debug, PartialEq, Eq, Structural)]
pub struct Timer {
    pub duration: u32,
    pub elapsed: u32,
    pub mode: TimerMode,
    pub finished: bool,
    /// Whether the last tick made the timer finish.
    pub just_finished: bool,
}

/// The timer after `delta` more microseconds.
pub open spec fn ticked(t: Timer, delta: u32) -> Timer {
    if t.mode == TimerMode::Once && t.finished {
        Timer { just_finished: false, ..t }
    } else {
        let sum = t.elapsed + delta;
        if sum >= t.duration {
            let rest = if t.mode == TimerMode::Once {
                t.duration as int
            } else if t.duration == 0 {
                0
            } else {
                sum % (t.duration as int)
            };
            Timer { elapsed: rest as u32, finished: true, just_finished: true, ..t }
        } else {
            Timer { elapsed: sum as u32, finished: false, just_finished: false, ..t }
        }
    }
}

/// Relies on bevy's `Timer::tick` (bevy_time 0.14), on a timer that is not
/// a finished one-shot: `delta` is added to the elapsed time and the timer
/// finishes when that reaches the duration; a repeating timer then keeps the
/// remainder (nothing for a zero duration), a one-shot timer stops at the
/// duration. Returns the new elapsed time and whether it finished.
#[verifier::external_body]
fn bevy_tick(t: Timer, delta: u32) -> (r: (u32, bool))
    requires
        !(t.mode == TimerMode::Once && t.finished),
    ensures
        r.0 == ticked(t, delta).elapsed,
        r.1 == ticked(t, delta).finished,
{
    let mode = match t.mode {
        TimerMode::Once => bevy::time::TimerMode::Once,
        TimerMode::Repeating => bevy::time::TimerMode::Repeating,
    };
    let mut b = bevy::time::Timer::new(Duration::from_micros(t.duration as u64), mode);
    b.set_elapsed(Duration::from_micros(t.elapsed as u64));
    b.tick(Duration::from_micros(delta as u64));
    (b.elapsed().as_micros() as u32, b.finished())
}

/// The timer after each delay of `deltas` in turn.
pub open spec fn ticked_all(t: Timer, deltas: Seq<u32>) -> Timer
    decreases deltas.len(),
{
    if deltas.len() == 0 {
        t
    } else {
        ticked(ticked_all(t, deltas.drop_last()), deltas.last())
    }
}

/// The sum of a sequence of delays.
pub open spec fn total(deltas: Seq<u32>) -> int
    decreases deltas.len(),
{
    if deltas.len() == 0 {
        0
    } else {
        total(deltas.drop_last()) + deltas.last()
    }
}

impl Timer {
    /// A one-shot timer has not run past its duration and is finished only
    /// at it; a timer that just finished is finished.
    pub open spec fn wf(self) -> bool {
        &&& self.just_finished ==> self.finished
        &&& self.mode == TimerMode::Once ==> self.elapsed <= self.duration && (self.finished
            ==> self.elapsed == self.duration)
    }

    /// A fresh timer of `duration` in `mode`.
    pub open spec fn new_spec(duration: u32, mode: TimerMode) -> Timer {
        Timer { duration, elapsed: 0, mode, finished: false, just_finished: false }
    }

    /// A fresh timer: nothing elapsed, not finished.
    pub fn new(duration: u32, mode: TimerMode) -> (r: Timer)
        ensures
            r == Timer::new_spec(duration, mode),
            r.wf(),
    {
        Timer { duration, elapsed: 0, mode, finished: false, just_finished: false }
    }

    /// Advances the timer by `delta` microseconds. A finished one-shot timer
    /// stays as it is; any other is advanced by bevy's timer.
    pub fn tick(&mut self, delta: u32)
        ensures
            *final(self) == ticked(*old(self), delta),
            old(self).wf() ==> final(self).wf(),
    {
        if self.mode == TimerMode::Once && self.finished {
            self.just_finished = false;
        } else {
            let (elapsed, finished) = bevy_tick(*self, delta);
            self.elapsed = elapsed;
            self.finished = finished;
            self.just_finished = finished;
        }
    }

    /// Whether the timer has finished (for a repeating timer: on the last tick).
    pub fn finished(&self) -> (r: bool)
        ensures
            r == self.finished,
    {
        self.finished
    }

    /// Whether the last tick made the timer finish.
    pub fn just_finished(&self) -> (r: bool)
        ensures
            r == self.just_finished,
    {
        self.just_finished
    }

    /// Restarts the countdown from zero.
    pub fn reset(&mut self)
        ensures
            *final(self) == (Timer { elapsed: 0, finished: false, just_finished: false, ..*old(self) }),
            final(self).wf(),
    {
        self.elapsed = 0;
        self.finished = false;
        self.just_finished = false;
    }

    /// Changes the duration and keeps the time elapsed so far.
    pub fn set_duration(&mut self, duration: u32)
        ensures
            *final(self) == (Timer { duration, ..*old(self) }),
            old(self).wf() && old(self).mode == TimerMode::Repeating ==> final(self).wf(),
    {
        self.duration = duration;
    }
}

/// A one-shot timer restarted from zero does not finish before the delays
/// ticked into it add up to its duration.
pub proof fn lemma_once_waits_full_duration(t: Timer, deltas: Seq<u32>)
    requires
        t.mode == TimerMode::Once,
        t.elapsed == 0,
        !t.finished,
        total(deltas) < t.duration,
    ensures
        !ticked_all(t, deltas).finished,
        ticked_all(t, deltas).elapsed == total(deltas),
        ticked_all(t, deltas).mode == t.mode,
        ticked_all(t, deltas).duration == t.duration,
    decreases deltas.len(),
{
    if deltas.len() > 0 {
        let prev = deltas.drop_last();
        lemma_total_prefix(deltas);
        lemma_once_waits_full_duration(t, prev);
        let p = ticked_all(t, prev);
        assert(ticked_all(t, deltas) == ticked(p, deltas.last()));

    }
}

proof fn lemma_total_prefix(deltas: Seq<u32>)
    requires
        deltas.len() > 0,
    ensures
        total(deltas.drop_last()) <= total(deltas),
{
}

/// Once the delays ticked into a one-shot timer restarted from zero add up to
/// its duration, it has finished.
pub proof fn lemma_once_finishes_at_duration(t: Timer, deltas: Seq<u32>)
    requires
        t.mode == TimerMode::Once,
        t.elapsed == 0,
        !t.finished,
        t.duration > 0,
        total(deltas) >= t.duration,
    ensures
        ticked_all(t, deltas).finished,
        ticked_all(t, deltas).mode == t.mode,
        ticked_all(t, deltas).duration == t.duration,
    decreases deltas.len(),
{
    if deltas.len() > 0 {
        let prev = deltas.drop_last();
        assert(ticked_all(t, deltas) == ticked(ticked_all(t, prev), deltas.last()));
        if total(prev) >= t.duration {
            lemma_once_finishes_at_duration(t, prev);
        } else {
            lemma_once_waits_full_duration(t, prev);
        }
    }
}

} // verus!
