//! Busy and idle accounting of a span, in nanoseconds.

use std::time::Duration;
use std::time::Instant;
use vstd::prelude::*;

use crate::text::{duration_text, push_duration};

verus! {

#[verifier::external_type_specification]
#[verifier::external_body]
pub struct ExInstant(Instant);

/// Relies on `Instant::now`: a reading of the monotonic clock.
#[verifier::external_body]
fn instant_now() -> Instant {
    Instant::now()
}

/// Relies on `Instant::saturating_duration_since`: the time from `earlier` to
/// `later`, zero when `later` is not after `earlier`.
#[verifier::external_body]
fn elapsed_between(earlier: &Instant, later: &Instant) -> Duration {
    later.saturating_duration_since(*earlier)
}

/// Relies on `Duration::as_nanos`: the whole nanoseconds of a duration.
#[verifier::external_body]
fn whole_nanos(d: &Duration) -> u128 {
    d.as_nanos()
}

/// `a + b`, held at `u64::MAX`.
pub open spec fn saturated(a: int, b: int) -> u64 {
    if a + b > u64::MAX { u64::MAX } else { (a + b) as u64 }
}

/// Nanosecond counters of the time a span spent busy (between an enter and
/// the matching exit) and idle (any other time since it was opened).
pub struct Timings {
    idle: u64,
    busy: u64,
    last: Instant,
}

impl Timings {
    /// Nanoseconds spent idle.
    pub closed spec fn spec_idle(&self) -> u64 {
        self.idle
    }

    /// Nanoseconds spent busy.
    pub closed spec fn spec_busy(&self) -> u64 {
        self.busy
    }

    /// The instant up to which time has been accounted.
    pub closed spec fn spec_last(&self) -> Instant {
        self.last
    }

    /// A timer that starts now, paused, with nothing accounted.
    pub fn new() -> (r: Self)
        ensures
            r.spec_idle() == 0,
            r.spec_busy() == 0,
    {
        Timings { idle: 0, busy: 0, last: instant_now() }
    }

    /// Accounts `elapsed` nanoseconds, up to `now`, as busy time.
    pub fn add_busy(&mut self, elapsed: u128, now: Instant)
        ensures
            final(self).spec_busy() == saturated(old(self).spec_busy() as int, elapsed as int),
            final(self).spec_idle() == old(self).spec_idle(),
            final(self).spec_last() == now,
    {
        self.busy = if elapsed >= (u64::MAX - self.busy) as u128 {
            u64::MAX
        } else {
            self.busy + elapsed as u64
        };
        self.last = now;
    }

    /// Accounts `elapsed` nanoseconds, up to `now`, as idle time.
    pub fn add_idle(&mut self, elapsed: u128, now: Instant)
        ensures
            final(self).spec_idle() == saturated(old(self).spec_idle() as int, elapsed as int),
            final(self).spec_busy() == old(self).spec_busy(),
            final(self).spec_last() == now,
    {
        self.idle = if elapsed >= (u64::MAX - self.idle) as u128 {
            u64::MAX
        } else {
            self.idle + elapsed as u64
        };
        self.last = now;
    }

    /// The span leaves its scope: the time since the last change was busy.
    pub fn now_idle(&mut self)
        ensures
            final(self).spec_busy() >= old(self).spec_busy(),
            final(self).spec_idle() == old(self).spec_idle(),
    {
        let now = instant_now();
        let elapsed = whole_nanos(&elapsed_between(&self.last, &now));
        self.add_busy(elapsed, now);
    }

    /// The span enters its scope: the time since the last change was idle.
    /// Calling it on a span that is already busy only moves time to idle.
    pub fn now_busy(&mut self)
        ensures
            final(self).spec_idle() >= old(self).spec_idle(),
            final(self).spec_busy() == old(self).spec_busy(),
    {
        let now = instant_now();
        let elapsed = whole_nanos(&elapsed_between(&self.last, &now));
        self.add_idle(elapsed, now);
    }

    /// Nanoseconds spent idle.
    pub fn idle(&self) -> (r: u64)
        ensures
            r == self.spec_idle(),
    {
        self.idle
    }

    /// Nanoseconds spent busy.
    pub fn busy(&self) -> (r: u64)
        ensures
            r == self.spec_busy(),
    {
        self.busy
    }

    /// Consumes the timer, giving the busy total in nanoseconds.
    pub fn duration(self) -> (r: u64)
        ensures
            r == self.spec_busy(),
    {
        self.busy
    }

    /// The busy time, for display.
    pub fn display_busy(&self) -> (r: TimingDisplay)
        ensures
            r.0 == self.spec_busy(),
    {
        TimingDisplay(self.busy)
    }

    /// The idle time, for display.
    pub fn display_idle(&self) -> (r: TimingDisplay)
        ensures
            r.0 == self.spec_idle(),
    {
        TimingDisplay(self.idle)
    }
}

/// A number of nanoseconds, shown in the unit that suits it.
pub struct TimingDisplay(pub u64);

impl TimingDisplay {
    /// The duration as text: `4.20ms`, `17.3µs`, `512ns`.
    pub fn render(&self) -> (r: String)
        ensures
            r@ == duration_text(self.0 as nat),
    {
        let mut out = String::new();
        push_duration(&mut out, self.0);
        out
    }
}

} // verus!
