//! A pausable tracker of elapsed time, counted in nanoseconds.
use vstd::prelude::*;
use std::time::{Duration, Instant};

verus! {

#[verifier::external_type_specification]
#[verifier::external_body]
pub struct ExInstant(Instant);

/// Relies on `Instant::now`: a reading of the monotonic clock.
#[verifier::external_body]
fn clock_now() -> Instant {
    Instant::now()
}

/// Relies on `Instant::elapsed`: the time that has passed since `start`.
#[verifier::external_body]
fn clock_elapsed(start: &Instant) -> Duration {
    start.elapsed()
}

/// Relies on `Duration::as_nanos`: the whole length of `d` in nanoseconds.
#[verifier::external_body]
fn duration_nanos(d: &Duration) -> u128 {
    d.as_nanos()
}

/// The total and the running state of a stopwatch.
pub ghost struct StopwatchView {
    pub running: bool,
    pub accumulated: nat,
}

/// `a + b`, held at `u128::MAX`.
pub open spec fn capped_sum(a: nat, b: nat) -> nat {
    if a + b > u128::MAX {
        u128::MAX as nat
    } else {
        a + b
    }
}

#[derive(Debug)]
pub struct Stopwatch {
    last_start: Option<Instant>,
    total: u128,
}

impl View for Stopwatch {
    type V = StopwatchView;

    closed spec fn view(&self) -> StopwatchView {
        StopwatchView { running: self.last_start is Some, accumulated: self.total as nat }
    }
}

fn add_capped(a: u128, b: u128) -> (r: u128)
    ensures
        r == capped_sum(a as nat, b as nat),
{
    if a > u128::MAX - b {
        u128::MAX
    } else {
        a + b
    }
}

impl Stopwatch {
    /// A stopwatch that runs from now, with nothing accumulated.
    pub fn start() -> (r: Stopwatch)
        ensures
            r@ == (StopwatchView { running: true, accumulated: 0 }),
    {
        Stopwatch { last_start: Some(clock_now()), total: 0 }
    }

    /// Nanoseconds that the current run has lasted, or 0 when paused.
    fn current_run(&self) -> u128 {
        match &self.last_start {
            Some(start) => {
                let d = clock_elapsed(start);
                duration_nanos(&d)
            },
            None => 0,
        }
    }

    /// Folds a run that lasted `run_nanos` into the total and stops the clock;
    /// returns the new total. On a paused stopwatch nothing changes.
    pub fn pause_after(&mut self, run_nanos: u128) -> (r: u128)
        ensures
            !final(self)@.running,
            r == final(self)@.accumulated,
            final(self)@.accumulated == if old(self)@.running {
                capped_sum(old(self)@.accumulated, run_nanos as nat)
            } else {
                old(self)@.accumulated
            },
    {
        if self.last_start.is_some() {
            self.total = add_capped(self.total, run_nanos);
            self.last_start = None;
        }
        self.total
    }

    /// Stops the clock and returns the total elapsed time in nanoseconds.
    /// Pausing a paused stopwatch changes nothing.
    pub fn pause(&mut self) -> (r: u128)
        ensures
            !final(self)@.running,
            r == final(self)@.accumulated,
            final(self)@.accumulated >= old(self)@.accumulated,
            !old(self)@.running ==> final(self)@ == old(self)@,
    {
        let run = self.current_run();
        self.pause_after(run)
    }

    /// Restarts the clock from now. On a running stopwatch the current run
    /// starts over; the total is kept.
    pub fn resume(&mut self)
        ensures
            final(self)@ == (StopwatchView { running: true, accumulated: old(self)@.accumulated }),
    {
        self.last_start = Some(clock_now());
    }

    /// The elapsed time, given that the current run (if any) lasted `run_nanos`.
    pub fn elapsed_after(&self, run_nanos: u128) -> (r: u128)
        ensures
            r == if self@.running {
                capped_sum(self@.accumulated, run_nanos as nat)
            } else {
                self@.accumulated
            },
    {
        if self.last_start.is_some() {
            add_capped(self.total, run_nanos)
        } else {
            self.total
        }
    }

    /// Total elapsed time in nanoseconds, whether running or paused.
    pub fn elapsed(&self) -> (r: u128)
        ensures
            r >= self@.accumulated,
            !self@.running ==> r == self@.accumulated,
    {
        let run = self.current_run();
        self.elapsed_after(run)
    }
}

impl Default for Stopwatch {
    /// A paused stopwatch with nothing accumulated.
    fn default() -> (r: Stopwatch)
        ensures
            r@ == (StopwatchView { running: false, accumulated: 0 }),
    {
        Stopwatch { last_start: None, total: 0 }
    }
}

} // verus!
