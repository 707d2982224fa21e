//! Countdown timers driven from outside: a timer advances only by the time
//! that its owner says has passed, in nanoseconds.
//!
//! The countdown itself is kept by `rusty_time`. A [`Countdown`] holds the
//! timer's three values as integers, and each operation hands them to the
//! outside timer and takes the new values back.

use vstd::prelude::*;
use rusty_time::timer::Timer;
use std::time::Duration;

verus! {

/// Nanoseconds in one millisecond.
pub const NANOS_PER_MILLI: u64 = 1_000_000;

/// The mathematical state of a countdown, all times in nanoseconds.
pub struct CountdownView {
    /// The time that a fresh or reset countdown runs.
    pub period: nat,
    /// The time that is left before the countdown elapses.
    pub left: nat,
    /// Whether the countdown has elapsed and not been reset since.
    pub ready: bool,
}

impl CountdownView {
    /// Never more time left than a whole period, and none once elapsed.
    pub open spec fn wf(self) -> bool {
        &&& self.left <= self.period
        &&& self.ready ==> self.left == 0
    }

    /// A countdown of `millis` milliseconds that has just been started.
    pub open spec fn started(millis: nat) -> CountdownView {
        CountdownView {
            period: millis * NANOS_PER_MILLI as nat,
            left: millis * NANOS_PER_MILLI as nat,
            ready: false,
        }
    }

    /// The countdown after `delta` nanoseconds have passed. An elapsed
    /// countdown stays as it is. One that is running elapses when more time
    /// passes than it has left; when exactly the time left passes it is at
    /// zero but not yet elapsed.
    pub open spec fn after_update(self, delta: nat) -> CountdownView {
        if self.ready {
            self
        } else if self.left >= delta {
            CountdownView { left: (self.left - delta) as nat, ..self }
        } else {
            CountdownView { left: 0, ready: true, ..self }
        }
    }

    /// The countdown started again with a whole period ahead of it.
    pub open spec fn after_reset(self) -> CountdownView {
        CountdownView { left: self.period, ready: false, ..self }
    }

    /// A recurring countdown after `delta` nanoseconds: advanced, and
    /// started again at once if that made it elapse.
    pub open spec fn after_tick(self, delta: nat) -> CountdownView {
        if self.after_update(delta).ready {
            self.after_update(delta).after_reset()
        } else {
            self.after_update(delta)
        }
    }
}

/// `rusty_time::timer::Timer::from_millis`, read back as nanoseconds:
/// the new timer's duration, the time it has left, and its ready flag.
/// The timer starts with its whole duration left and is not ready.
#[verifier::external_body]
fn timer_from_millis(millis: u32) -> (out: (u64, u64, bool))
    ensures
        out.0 == millis * NANOS_PER_MILLI,
        out.1 == millis * NANOS_PER_MILLI,
        out.2 == false,
{
    let timer = Timer::from_millis(millis as u64);
    (timer.duration.as_nanos() as u64, timer.time_left.as_nanos() as u64, timer.ready)
}

/// `rusty_time::timer::Timer::update` on a timer with the given duration,
/// time left and ready flag: the time left and the ready flag afterwards.
/// A ready timer is left alone. Otherwise `delta` is taken from the time
/// left; if `delta` is the larger, the time left becomes zero and the timer
/// ready.
#[verifier::external_body]
fn timer_update(period: u64, left: u64, ready: bool, delta: u64) -> (out: (u64, bool))
    ensures
        out.0 == (if ready {
            left as int
        } else if left >= delta {
            left - delta
        } else {
            0
        }),
        out.1 == (ready || left < delta),
{
    let mut timer = Timer {
        duration: Duration::from_nanos(period),
        time_left: Duration::from_nanos(left),
        ready,
    };
    timer.update(Duration::from_nanos(delta));
    (timer.time_left.as_nanos() as u64, timer.ready)
}

/// `rusty_time::timer::Timer::reset` on a timer with the given duration,
/// time left and ready flag: the time left and the ready flag afterwards.
/// The timer has its whole duration left again and is not ready.
#[verifier::external_body]
fn timer_reset(period: u64, left: u64, ready: bool) -> (out: (u64, bool))
    ensures
        out.0 == period,
        out.1 == false,
{
    let mut timer = Timer {
        duration: Duration::from_nanos(period),
        time_left: Duration::from_nanos(left),
        ready,
    };
    timer.reset();
    (timer.time_left.as_nanos() as u64, timer.ready)
}

/// A countdown that its owner advances by the time that has passed.
///
/// Once elapsed it stays ready until it is reset: readiness is a latch
/// that the owner clears.
#[derive(Clone, Copy, Debug)]
pub struct Countdown {
    period: u64,
    left: u64,
    ready: bool,
}

impl View for Countdown {
    type V = CountdownView;

    closed spec fn view(&self) -> CountdownView {
        CountdownView { period: self.period as nat, left: self.left as nat, ready: self.ready }
    }
}

impl Countdown {
    /// A countdown of `millis` milliseconds, started now.
    pub fn from_millis(millis: u32) -> (countdown: Countdown)
        ensures
            countdown@ == CountdownView::started(millis as nat),
            countdown@.wf(),
    {
        let (period, left, ready) = timer_from_millis(millis);
        Countdown { period, left, ready }
    }

    /// Lets `delta` nanoseconds pass.
    pub fn update(&mut self, delta: u64)
        ensures
            final(self)@ == old(self)@.after_update(delta as nat),
            old(self)@.wf() ==> final(self)@.wf(),
    {
        let (left, ready) = timer_update(self.period, self.left, self.ready, delta);
        self.left = left;
        self.ready = ready;
    }

    /// Starts the countdown again with its whole period.
    pub fn reset(&mut self)
        ensures
            final(self)@ == old(self)@.after_reset(),
            final(self)@.wf(),
    {
        let (left, ready) = timer_reset(self.period, self.left, self.ready);
        self.left = left;
        self.ready = ready;
    }

    /// Lets `delta` nanoseconds pass on a recurring countdown and says
    /// whether it elapsed. An elapsed countdown is started again at once,
    /// so each elapse is reported by exactly one call.
    pub fn tick(&mut self, delta: u64) -> (elapsed: bool)
        ensures
            elapsed == old(self)@.after_update(delta as nat).ready,
            final(self)@ == old(self)@.after_tick(delta as nat),
            !final(self)@.ready,
            old(self)@.wf() ==> final(self)@.wf(),
    {
        self.update(delta);
        if self.ready {
            self.reset();
            true
        } else {
            false
        }
    }

    /// Whether the countdown has elapsed and not been reset since.
    pub fn ready(&self) -> (ready: bool)
        ensures
            ready == self@.ready,
    {
        self.ready
    }

    /// The nanoseconds left before the countdown elapses.
    pub fn time_left(&self) -> (left: u64)
        ensures
            left == self@.left,
    {
        self.left
    }

    /// The nanoseconds that the countdown runs after a reset.
    pub fn period(&self) -> (period: u64)
        ensures
            period == self@.period,
    {
        self.period
    }
}

} // verus!
