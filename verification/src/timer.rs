use vstd::prelude::*;
use std::time::{Duration, Instant};

verus! {

/// `std::time::Instant`, a reading of the monotonic clock: carried about,
/// never looked into.
#[verifier::external_type_specification]
#[verifier::external_body]
pub struct ExInstant(Instant);

/// Reads the monotonic clock through `std::time::Instant::now`. Nothing is
/// claimed about the reading.
#[verifier::external_body]
fn clock_now() -> Instant {
    Instant::now()
}

/// The time that has passed since `start`, through
/// `std::time::Instant::elapsed`. Nothing is claimed about it.
#[verifier::external_body]
fn clock_elapsed(start: &Instant) -> Duration {
    start.elapsed()
}

/// The whole seconds of a duration, through `std::time::Duration::as_secs`.
/// Nothing is claimed about their number.
#[verifier::external_body]
fn whole_seconds(duration: &Duration) -> u64 {
    duration.as_secs()
}

/// A countdown over a fixed number of seconds, not started or running.
#[derive(Debug)]
pub struct Timer {
    secs: usize,
    start: Option<Instant>,
    elapsed: u64,
}

/// What a `Timer` holds, the instant at which it was started left out.
pub struct TimerView {
    /// Seconds after which the countdown is over.
    pub secs: usize,
    pub started: bool,
    /// Whole seconds that had passed at the last reading.
    pub elapsed: u64,
}

impl TimerView {
    /// A countdown over `secs` seconds that has not started.
    pub open spec fn fresh(secs: usize) -> TimerView {
        TimerView { secs, started: false, elapsed: 0 }
    }

    /// The countdown runs from now on.
    pub open spec fn start(self) -> TimerView {
        TimerView { started: true, ..self }
    }

    /// A running countdown takes `reading` as the seconds that have passed;
    /// one that has not started stays as it is.
    pub open spec fn record(self, reading: u64) -> TimerView {
        if self.started {
            TimerView { elapsed: reading, ..self }
        } else {
            self
        }
    }

    /// The seconds that have passed are no fewer than the limit.
    pub open spec fn finished(self) -> bool {
        self.elapsed >= self.secs
    }
}

impl View for Timer {
    type V = TimerView;

    closed spec fn view(&self) -> TimerView {
        TimerView { secs: self.secs, started: self.start is Some, elapsed: self.elapsed }
    }
}

impl Timer {
    /// A countdown over `secs` seconds that has not started.
    pub fn new(secs: usize) -> (timer: Self)
        ensures
            timer@ == TimerView::fresh(secs),
    {
        Self { secs, start: None, elapsed: 0 }
    }

    /// Starts the countdown at the present instant. A countdown that is
    /// already running keeps the instant at which it started.
    pub fn start(&mut self)
        ensures
            final(self)@ == old(self)@.start(),
    {
        if self.start.is_none() {
            self.start = Some(clock_now());
        }
    }

    /// Takes `reading` as the whole seconds that have passed since the start.
    pub fn record(&mut self, reading: u64)
        ensures
            final(self)@ == old(self)@.record(reading),
    {
        if self.start.is_some() {
            self.elapsed = reading;
        }
    }

    /// The whole seconds that have passed since the start, by the clock. A
    /// countdown that has not started reads nothing and gets zero.
    pub fn read(&self) -> (reading: u64)
        ensures
            !self@.started ==> reading == 0,
    {
        match &self.start {
            Some(start) => {
                let passed = clock_elapsed(start);
                whole_seconds(&passed)
            },
            None => 0,
        }
    }

    /// Reads the clock and records the whole seconds that have passed since
    /// the start.
    pub fn ticktock(&mut self)
        ensures
            exists|reading: u64| final(self)@ == old(self)@.record(reading),
    {
        let reading = self.read();
        self.record(reading);
        assert(self@ == old(self)@.record(reading));
    }

    /// Whether the countdown is over.
    pub fn finished(&self) -> (over: bool)
        ensures
            over == self@.finished(),
    {
        self.elapsed >= self.secs as u64
    }

    /// Whether the countdown has been started.
    pub fn started(&self) -> (started: bool)
        ensures
            started == self@.started,
    {
        self.start.is_some()
    }

    /// Seconds after which the countdown is over.
    pub fn secs(&self) -> (secs: usize)
        ensures
            secs == self@.secs,
    {
        self.secs
    }

    /// Whole seconds that had passed at the last reading.
    pub fn elapsed(&self) -> (elapsed: u64)
        ensures
            elapsed == self@.elapsed,
    {
        self.elapsed
    }
}

} // verus!
