//! Time that has passed since a start.

use std::time::{Duration, Instant};
use vstd::prelude::*;

verus! {

/// Nanoseconds in a second.
pub const NANOS_PER_SEC: u128 = 1_000_000_000;

/// The longest span that the standard library's `Duration` holds, in nanoseconds:
/// `u64::MAX` seconds and 999,999,999 nanoseconds.
pub const MAX_SPAN_NANOS: u128 = 18_446_744_073_709_551_615_999_999_999;

/// `std::time::Instant`, a reading of the monotonic clock.
#[verifier::external_type_specification]
#[verifier::external_body]
pub struct ExInstant(std::time::Instant);

/// Whether a duration is one that `Instant::elapsed` gives for a reading, sooner or later.
pub uninterp spec fn can_elapse(since: Instant, span: Duration) -> bool;

/// The total number of nanoseconds in a duration.
pub uninterp spec fn duration_nanos(span: Duration) -> u128;

/// `Instant::now`: a reading of the clock. Nothing is claimed of it.
#[verifier::external_body]
fn instant_now() -> Instant {
    Instant::now()
}

/// `Instant::elapsed`: the time since the reading. Which of the durations that it can give it
/// is depends on the clock and is not claimed.
#[verifier::external_body]
fn instant_elapsed(since: &Instant) -> (r: Duration)
    ensures
        can_elapse(*since, r),
{
    since.elapsed()
}

/// `Duration::as_nanos`: the duration in nanoseconds, which is at most that of the longest
/// duration. The contract names the number.
#[verifier::external_body]
fn duration_as_nanos(span: &Duration) -> (r: u128)
    ensures
        r == duration_nanos(*span),
        r <= MAX_SPAN_NANOS,
{
    span.as_nanos()
}

/// A clock that counts from when it was started, and never goes back. A copy counts from the
/// same moment.
#[derive(Clone, Copy)]
pub struct Clock {
    epoch: Instant,
    latest_nanos: u128,
}

/// Whether a number of nanoseconds is one that can pass since a reading of the clock.
pub open spec fn can_pass(since: Instant, nanos: u128) -> bool {
    exists|span: Duration| #[trigger] can_elapse(since, span) && nanos == duration_nanos(span)
}

impl Clock {
    /// The moment that the clock counts from.
    pub closed spec fn epoch(self) -> Instant {
        self.epoch
    }

    /// What the clock has shown last, zero before the first look at it.
    pub closed spec fn latest(self) -> u128 {
        self.latest_nanos
    }

    /// What the clock has shown last is a time that can pass since it was started.
    #[verifier::type_invariant]
    spec fn latest_was_read(self) -> bool {
        &&& self.latest_nanos <= MAX_SPAN_NANOS
        &&& self.latest_nanos == 0 || can_pass(self.epoch, self.latest_nanos)
    }

    /// Whether a clock is this one after a look at it: it counts from the same moment, and
    /// shows a time since then that is not before the earlier one.
    pub open spec fn looked_at(self, after: Clock) -> bool {
        &&& after.epoch() == self.epoch()
        &&& can_pass(self.epoch(), after.latest())
        &&& self.latest() <= after.latest() <= MAX_SPAN_NANOS
    }

    /// What the clock has shown last, in whole milliseconds.
    pub open spec fn latest_ms(self) -> u64 {
        spec_whole_millis(self.latest())
    }

    /// Starts a clock.
    pub fn start() -> (r: Self)
        ensures
            r.latest() == 0,
    {
        Clock { epoch: instant_now(), latest_nanos: 0 }
    }

    /// Nanoseconds since the start. How many these are depends on the clock of the machine;
    /// should that go back, this one stays.
    pub fn elapsed_nanos(&mut self) -> (r: u128)
        ensures
            old(self).looked_at(*final(self)),
            r == final(self).latest(),
            final(self).epoch() == old(self).epoch(),
            r >= old(self).latest(),
            can_pass(old(self).epoch(), r),
    {
        proof {
            use_type_invariant(&*self);
        }
        let span: Duration = instant_elapsed(&self.epoch);
        let nanos: u128 = duration_as_nanos(&span);
        proof {
            assert(can_elapse(self.epoch, span) && nanos == duration_nanos(span));
        }
        self.advance_to(nanos)
    }

    /// Shows a time that has passed since the start, or what was shown last where that is
    /// later.
    pub fn advance_to(&mut self, nanos: u128) -> (r: u128)
        requires
            nanos <= MAX_SPAN_NANOS,
            nanos == 0 || can_pass(old(self).epoch(), nanos),
        ensures
            final(self).epoch() == old(self).epoch(),
            final(self).latest() == if nanos > old(self).latest() {
                nanos
            } else {
                old(self).latest()
            },
            r == final(self).latest(),
    {
        proof {
            use_type_invariant(&*self);
        }
        if nanos > self.latest_nanos {
            self.latest_nanos = nanos;
        }
        self.latest_nanos
    }

    /// Whole milliseconds since the start.
    pub fn elapsed_ms(&mut self) -> (r: u64)
        ensures
            old(self).looked_at(*final(self)),
            r == final(self).latest_ms(),
    {
        let nanos: u128 = self.elapsed_nanos();
        whole_millis(nanos)
    }
}

/// The whole milliseconds in a span of nanoseconds, in 64 bits.
pub open spec fn spec_whole_millis(nanos: u128) -> u64 {
    (nanos / 1_000_000) as u64
}

/// The whole milliseconds in a span of nanoseconds, in 64 bits.
pub fn whole_millis(nanos: u128) -> (r: u64)
    ensures
        r == spec_whole_millis(nanos),
{
    (nanos / 1_000_000) as u64
}

/// A later look at a clock shows no earlier millisecond, as long as the milliseconds fit in 64
/// bits.
pub proof fn lemma_clock_does_not_go_back(clock: Clock, after: Clock)
    requires
        clock.looked_at(after),
        after.latest() / 1_000_000 <= u64::MAX,
    ensures
        clock.latest_ms() <= after.latest_ms(),
{
}

/// The whole milliseconds of a span are those that fit in it and leave less than one more.
pub proof fn lemma_whole_millis(nanos: u128)
    requires
        nanos < 1_000_000 * 0x1_0000_0000_0000_0000,
    ensures
        1_000_000 * spec_whole_millis(nanos) <= nanos < 1_000_000 * spec_whole_millis(nanos)
            + 1_000_000,
{
}

} // verus!
