//! The clock by which an event loop paces itself.

use std::time::{Duration, Instant};
use vstd::prelude::*;

verus! {

/// `std::time::Instant`.
#[verifier::external_type_specification]
#[verifier::external_body]
pub struct ExInstant(Instant);

/// `Instant::now`. Nothing is claimed of the time.
pub assume_specification[ Instant::now ]() -> (now: Instant);

/// `Instant::elapsed`. Nothing is claimed of the time that has passed.
pub assume_specification[ Instant::elapsed ](since: &Instant) -> (elapsed: Duration);

/// The number of nanoseconds in a duration.
pub uninterp spec fn nanos(duration: Duration) -> u128;

/// `Duration::as_nanos`, which returns the total number of nanoseconds in a duration.
pub assume_specification[ Duration::as_nanos ](duration: &Duration) -> (total: u128)
    ensures
        total == nanos(*duration),
;

/// `now` was read off the clock.
pub open spec fn was_now(now: Instant) -> bool {
    call_ensures(Instant::now, (), now)
}

/// The clock was asked how long ago `since` was, and said `elapsed`.
pub open spec fn was_elapsed(since: Instant, elapsed: Duration) -> bool {
    call_ensures(Instant::elapsed, (&since,), elapsed)
}

/// Measures how long an event loop has been polling, and keeps the record of what it measured.
pub struct Stopwatch {
    since: Option<Instant>,
    readings: Ghost<Seq<Duration>>,
}

impl Stopwatch {
    /// Since when it has been running, if it has.
    pub closed spec fn since(self) -> Option<Instant> {
        self.since
    }

    /// Every time that it measured, in order.
    pub closed spec fn readings(self) -> Seq<Duration> {
        self.readings@
    }

    /// `since` is when this stopwatch was started, if it is running, and else the present.
    pub open spec fn runs_since(self, since: Instant) -> bool {
        match self.since() {
            Some(start) => since == start,
            None => was_now(since),
        }
    }

    /// A stopwatch that is not running.
    pub(crate) fn new() -> (watch: Stopwatch)
        ensures
            watch.since() is None,
            watch.readings().len() == 0,
    {
        Stopwatch { since: None, readings: Ghost(Seq::empty()) }
    }

    /// Starts the stopwatch, unless it is running already.
    pub(crate) fn start(&mut self)
        ensures
            final(self).since() matches Some(since) && old(self).runs_since(since),
            final(self).readings() == old(self).readings(),
    {
        if self.since.is_none() {
            self.since = Some(Instant::now());
        }
    }

    /// How long the stopwatch has been running.
    pub(crate) fn elapsed(&mut self) -> (elapsed: Duration)
        requires
            old(self).since() is Some,
        ensures
            was_elapsed(old(self).since()->0, elapsed),
            final(self).since() == old(self).since(),
            final(self).readings() == old(self).readings().push(elapsed),
    {
        let elapsed = self.since.unwrap().elapsed();
        self.readings = Ghost(self.readings@.push(elapsed));
        elapsed
    }

    /// Stops the stopwatch, so that it starts anew.
    pub(crate) fn stop(&mut self)
        ensures
            final(self).since() is None,
            final(self).readings() == old(self).readings(),
    {
        self.since = None;
    }
}

} // verus!
