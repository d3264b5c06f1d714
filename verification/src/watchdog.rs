//! Progress watchdog: follows requests and responses and says when the worker should exit
//! because no successful response completes, or because it is to be recycled.
//!
//! Times are milliseconds since the clock of the watchdog was started. A stamp is a time plus
//! one, so that zero always means "not yet".

use crate::clock::{lemma_clock_does_not_go_back, Clock};
use vstd::prelude::*;

verus! {

/// Exit code of a worker that makes no progress.
pub const EXIT_CODE_NO_PROGRESS: i32 = 70;

/// Exit code of a worker that ends to be recycled.
pub const EXIT_CODE_RECYCLE: i32 = 0;

/// Why the worker should exit.
#[derive(Clone, Copy, Debug, PartialEq, Eq, Structural)]
pub enum FireReason {
    /// The worker has reached its lifetime.
    MaxLifetime,
    /// Requests came, and none has succeeded for too long.
    NoSuccess,
    /// Responses have failed since the last success, which is too long ago.
    FailureTimeout,
    /// A request is in flight for too long.
    InFlightStuck,
}

impl FireReason {
    /// The reason in words.
    pub open spec fn words(self) -> Seq<char> {
        match self {
            FireReason::MaxLifetime => "max_lifetime exceeded"@,
            FireReason::NoSuccess => "no success timeout"@,
            FireReason::FailureTimeout => "failure timeout"@,
            FireReason::InFlightStuck => "in-flight stuck"@,
        }
    }

    /// The reason in words.
    pub fn label(&self) -> (r: &'static str)
        ensures
            r@ == self.words(),
            *self == FireReason::MaxLifetime ==> r@ == "max_lifetime exceeded"@,
            *self == FireReason::NoSuccess ==> r@ == "no success timeout"@,
            *self == FireReason::FailureTimeout ==> r@ == "failure timeout"@,
            *self == FireReason::InFlightStuck ==> r@ == "in-flight stuck"@,
    {
        match self {
            FireReason::MaxLifetime => "max_lifetime exceeded",
            FireReason::NoSuccess => "no success timeout",
            FireReason::FailureTimeout => "failure timeout",
            FireReason::InFlightStuck => "in-flight stuck",
        }
    }

    /// The exit code: a clean exit at the end of the lifetime, the code of a worker without
    /// progress otherwise.
    pub fn exit_code(&self) -> (r: i32)
        ensures
            r == if *self == FireReason::MaxLifetime {
                EXIT_CODE_RECYCLE
            } else {
                EXIT_CODE_NO_PROGRESS
            },
            *self == FireReason::MaxLifetime ==> r == 0,
            *self != FireReason::MaxLifetime ==> r == 70,
    {
        match self {
            FireReason::MaxLifetime => EXIT_CODE_RECYCLE,
            _ => EXIT_CODE_NO_PROGRESS,
        }
    }
}

/// The stamp of a time.
pub open spec fn stamp(now_ms: u64) -> u64 {
    next_count(now_ms)
}

/// The next value of a counter, zero after the last.
pub open spec fn next_count(count: u64) -> u64 {
    if count == u64::MAX {
        0
    } else {
        (count + 1) as u64
    }
}

/// The milliseconds from a stamp to now, zero where the stamp is not in the past.
pub open spec fn age_ms(now_ms: u64, since_ms: u64) -> int {
    if now_ms > since_ms {
        now_ms - since_ms
    } else {
        0
    }
}

/// Whether at least so many whole seconds have passed since a stamp.
pub open spec fn overdue(now_ms: u64, since_ms: u64, max_secs: u64) -> bool {
    age_ms(now_ms, since_ms) / 1000 >= max_secs
}

/// Monitors that request/response progress is being made.
pub struct ProgressWatchdog {
    /// Inference requests received (without model-management messages).
    pub total_requests: u64,
    /// Successful responses sent.
    pub total_successes: u64,
    /// Failed responses.
    pub total_failures: u64,
    /// Stamp of the last successful response, 0 before the first.
    pub last_success_ms: u64,
    /// Stamp of the last failed response, 0 before the first.
    pub last_failure_ms: u64,
    /// Stamp of the first request, 0 before it.
    pub first_request_ms: u64,
    /// Stamp of the start of the request in flight, 0 where there is none.
    pub in_flight_start_ms: u64,
    /// Seconds without success before the watchdog fires (0 = disabled).
    pub max_no_progress_secs: u64,
    /// Successful responses before the worker is recycled (0 = disabled).
    pub max_requests: u64,
    /// Seconds of lifetime before the worker is recycled (0 = disabled).
    pub max_lifetime_secs: u64,
    /// Whether the watchdog has fired.
    pub fired: bool,
    /// The clock that the stamps count from.
    pub clock: Clock,
}

/// Health state at a point in time.
#[derive(Clone, Copy, Debug, PartialEq, Eq, Structural)]
pub struct HealthSnapshot {
    pub total_requests: u64,
    pub total_successes: u64,
    pub total_failures: u64,
    pub last_success_ms: u64,
    pub last_failure_ms: u64,
    pub first_request_ms: u64,
    pub in_flight_start_ms: u64,
    pub now_ms: u64,
}

impl HealthSnapshot {
    /// Milliseconds since the last successful response (0 before the first).
    pub fn last_success_age_ms(&self) -> (r: u64)
        ensures
            r == if self.last_success_ms == 0 {
                0
            } else {
                age_ms(self.now_ms, self.last_success_ms)
            },
            self.last_success_ms == 0 || self.now_ms <= self.last_success_ms ==> r == 0,
            0 < self.last_success_ms < self.now_ms ==> r == self.now_ms - self.last_success_ms,
    {
        if self.last_success_ms == 0 {
            0
        } else {
            self.now_ms.saturating_sub(self.last_success_ms)
        }
    }

    /// Milliseconds since the request in flight started (0 where there is none).
    pub fn in_flight_age_ms(&self) -> (r: u64)
        ensures
            r == if self.in_flight_start_ms == 0 {
                0
            } else {
                age_ms(self.now_ms, self.in_flight_start_ms)
            },
            self.in_flight_start_ms == 0 || self.now_ms <= self.in_flight_start_ms ==> r == 0,
            0 < self.in_flight_start_ms < self.now_ms ==> r == self.now_ms
                - self.in_flight_start_ms,
    {
        if self.in_flight_start_ms == 0 {
            0
        } else {
            self.now_ms.saturating_sub(self.in_flight_start_ms)
        }
    }
}

impl ProgressWatchdog {
    /// Whether nothing has been told to the watchdog yet, as `new` leaves it.
    pub open spec fn is_fresh(self) -> bool {
        &&& self.total_requests == 0
        &&& self.total_successes == 0
        &&& self.total_failures == 0
        &&& self.last_success_ms == 0
        &&& self.last_failure_ms == 0
        &&& self.first_request_ms == 0
        &&& self.in_flight_start_ms == 0
        &&& !self.fired
    }

    /// The watchdog with its clock after a look at it.
    pub open spec fn with_clock(self, clock: Clock) -> Self {
        ProgressWatchdog { clock, ..self }
    }

    /// The health state at a time.
    pub open spec fn health(self, now_ms: u64) -> HealthSnapshot {
        HealthSnapshot {
            total_requests: self.total_requests,
            total_successes: self.total_successes,
            total_failures: self.total_failures,
            last_success_ms: self.last_success_ms,
            last_failure_ms: self.last_failure_ms,
            first_request_ms: self.first_request_ms,
            in_flight_start_ms: self.in_flight_start_ms,
            now_ms,
        }
    }

    /// Whether the lifetime has been reached.
    pub open spec fn lifetime_reached(self, now_ms: u64) -> bool {
        self.max_lifetime_secs > 0 && now_ms as int / 1000 >= self.max_lifetime_secs
    }

    /// Whether requests came and none has ever succeeded, for too long.
    pub open spec fn without_success(self, now_ms: u64) -> bool {
        &&& self.max_no_progress_secs > 0
        &&& self.total_requests > 0
        &&& self.last_success_ms == 0
        &&& overdue(now_ms, self.first_request_ms, self.max_no_progress_secs)
    }

    /// Whether a response has failed since the last success, which is too long ago. Where
    /// nothing has ever succeeded, the time counts from the last failure.
    pub open spec fn failing(self, now_ms: u64) -> bool {
        &&& self.max_no_progress_secs > 0
        &&& self.total_requests > 0
        &&& self.last_failure_ms > self.last_success_ms
        &&& overdue(
            now_ms,
            if self.last_success_ms > 0 {
                self.last_success_ms
            } else {
                self.last_failure_ms
            },
            self.max_no_progress_secs,
        )
    }

    /// Whether a request is in flight for too long.
    pub open spec fn stuck(self, now_ms: u64) -> bool {
        &&& self.max_no_progress_secs > 0
        &&& self.in_flight_start_ms > 0
        &&& overdue(now_ms, self.in_flight_start_ms, self.max_no_progress_secs)
    }

    /// Why the worker should exit at a time, if it should.
    pub open spec fn verdict(self, now_ms: u64) -> Option<FireReason> {
        if self.lifetime_reached(now_ms) {
            Some(FireReason::MaxLifetime)
        } else if self.without_success(now_ms) {
            Some(FireReason::NoSuccess)
        } else if self.failing(now_ms) {
            Some(FireReason::FailureTimeout)
        } else if self.stuck(now_ms) {
            Some(FireReason::InFlightStuck)
        } else {
            None
        }
    }

    /// The watchdog after a request has started.
    pub open spec fn after_request_start(self, now_ms: u64) -> Self {
        ProgressWatchdog {
            total_requests: next_count(self.total_requests),
            first_request_ms: if self.first_request_ms == 0 {
                stamp(now_ms)
            } else {
                self.first_request_ms
            },
            in_flight_start_ms: stamp(now_ms),
            ..self
        }
    }

    /// The watchdog after a successful response.
    pub open spec fn after_response_ok(self, now_ms: u64) -> Self {
        ProgressWatchdog {
            last_success_ms: stamp(now_ms),
            in_flight_start_ms: 0,
            total_successes: next_count(self.total_successes),
            ..self
        }
    }

    /// The watchdog after a failed response.
    pub open spec fn after_response_err(self, now_ms: u64) -> Self {
        ProgressWatchdog {
            last_failure_ms: stamp(now_ms),
            total_failures: next_count(self.total_failures),
            in_flight_start_ms: 0,
            ..self
        }
    }

    /// Whether the worker has answered as many requests as it may before it is recycled.
    pub open spec fn recycle_due(self) -> bool {
        self.max_requests > 0 && self.total_successes >= self.max_requests
    }

    /// What a look at the watchdog gives: the verdict, unless it has fired before.
    pub open spec fn look(self, now_ms: u64) -> Option<FireReason> {
        if self.fired {
            None
        } else {
            self.verdict(now_ms)
        }
    }

    /// The watchdog after a look: fired once a verdict was given.
    pub open spec fn after_look(self, now_ms: u64) -> Self {
        ProgressWatchdog { fired: self.fired || self.verdict(now_ms) is Some, ..self }
    }

    /// Makes a watchdog with the given limits, and starts its clock.
    pub fn new(max_no_progress_secs: u64, max_requests: u64, max_lifetime_secs: u64) -> (r: Self)
        ensures
            r.is_fresh(),
            r.total_requests == 0,
            r.total_successes == 0,
            r.total_failures == 0,
            r.last_success_ms == 0,
            r.last_failure_ms == 0,
            r.first_request_ms == 0,
            r.in_flight_start_ms == 0,
            !r.fired,
            r.max_no_progress_secs == max_no_progress_secs,
            r.max_requests == max_requests,
            r.max_lifetime_secs == max_lifetime_secs,
            r.clock.latest() == 0,
    {
        ProgressWatchdog::on_clock(
            Clock::start(),
            max_no_progress_secs,
            max_requests,
            max_lifetime_secs,
        )
    }

    /// Makes a watchdog with the given limits on a clock that runs already, so that times and
    /// the lifetime count from the start of that clock.
    pub fn on_clock(
        clock: Clock,
        max_no_progress_secs: u64,
        max_requests: u64,
        max_lifetime_secs: u64,
    ) -> (r: Self)
        ensures
            r.is_fresh(),
            r.total_requests == 0,
            r.total_successes == 0,
            r.total_failures == 0,
            r.last_success_ms == 0,
            r.last_failure_ms == 0,
            r.first_request_ms == 0,
            r.in_flight_start_ms == 0,
            !r.fired,
            r.max_no_progress_secs == max_no_progress_secs,
            r.max_requests == max_requests,
            r.max_lifetime_secs == max_lifetime_secs,
            r.clock == clock,
    {
        ProgressWatchdog {
            total_requests: 0,
            total_successes: 0,
            total_failures: 0,
            last_success_ms: 0,
            last_failure_ms: 0,
            first_request_ms: 0,
            in_flight_start_ms: 0,
            max_no_progress_secs,
            max_requests,
            max_lifetime_secs,
            fired: false,
            clock,
        }
    }

    /// Marks the start of an inference request at a time.
    pub fn request_start_at(&mut self, now_ms: u64)
        ensures
            *final(self) == old(self).after_request_start(now_ms),
    {
        self.total_requests = self.total_requests.wrapping_add(1);
        let started_ms: u64 = now_ms.wrapping_add(1);
        if self.first_request_ms == 0 {
            self.first_request_ms = started_ms;
        }
        self.in_flight_start_ms = started_ms;
    }

    /// Marks the start of an inference request.
    pub fn request_start(&mut self)
        ensures
            old(self).clock.looked_at(final(self).clock),
            *final(self) == old(self).with_clock(final(self).clock).after_request_start(
                final(self).clock.latest_ms(),
            ),
    {
        let now_ms: u64 = self.clock.elapsed_ms();
        self.request_start_at(now_ms);
    }

    /// Marks a successful response at a time, and says whether the worker is now to be
    /// recycled.
    pub fn response_ok_at(&mut self, now_ms: u64) -> (recycle: bool)
        ensures
            *final(self) == old(self).after_response_ok(now_ms),
            recycle == final(self).recycle_due(),
    {
        self.last_success_ms = now_ms.wrapping_add(1);
        self.in_flight_start_ms = 0;
        self.total_successes = self.total_successes.wrapping_add(1);
        self.max_requests > 0 && self.total_successes >= self.max_requests
    }

    /// Marks a successful response, and says whether the worker is now to be recycled.
    pub fn response_ok(&mut self) -> (recycle: bool)
        ensures
            old(self).clock.looked_at(final(self).clock),
            *final(self) == old(self).with_clock(final(self).clock).after_response_ok(
                final(self).clock.latest_ms(),
            ),
            recycle == final(self).recycle_due(),
    {
        let now_ms: u64 = self.clock.elapsed_ms();
        self.response_ok_at(now_ms)
    }

    /// Marks a failed response at a time.
    pub fn response_err_at(&mut self, now_ms: u64)
        ensures
            *final(self) == old(self).after_response_err(now_ms),
    {
        self.last_failure_ms = now_ms.wrapping_add(1);
        self.total_failures = self.total_failures.wrapping_add(1);
        self.in_flight_start_ms = 0;
    }

    /// Marks a failed response.
    pub fn response_err(&mut self)
        ensures
            old(self).clock.looked_at(final(self).clock),
            *final(self) == old(self).with_clock(final(self).clock).after_response_err(
                final(self).clock.latest_ms(),
            ),
    {
        let now_ms: u64 = self.clock.elapsed_ms();
        self.response_err_at(now_ms);
    }

    /// The health state at a time.
    pub fn snapshot_at(&self, now_ms: u64) -> (r: HealthSnapshot)
        ensures
            r == self.health(now_ms),
            r.total_requests == self.total_requests,
            r.total_successes == self.total_successes,
            r.total_failures == self.total_failures,
            r.last_success_ms == self.last_success_ms,
            r.last_failure_ms == self.last_failure_ms,
            r.first_request_ms == self.first_request_ms,
            r.in_flight_start_ms == self.in_flight_start_ms,
            r.now_ms == now_ms,
    {
        HealthSnapshot {
            total_requests: self.total_requests,
            total_successes: self.total_successes,
            total_failures: self.total_failures,
            last_success_ms: self.last_success_ms,
            last_failure_ms: self.last_failure_ms,
            first_request_ms: self.first_request_ms,
            in_flight_start_ms: self.in_flight_start_ms,
            now_ms,
        }
    }

    /// The health state now.
    pub fn snapshot(&mut self) -> (r: HealthSnapshot)
        ensures
            old(self).clock.looked_at(final(self).clock),
            *final(self) == old(self).with_clock(final(self).clock),
            r == final(self).health(final(self).clock.latest_ms()),
    {
        let now_ms: u64 = self.clock.elapsed_ms();
        self.snapshot_at(now_ms)
    }

    /// Looks whether the worker should exit at a time, and why. Once a reason was given, no
    /// later look gives one.
    pub fn poll_at(&mut self, now_ms: u64) -> (r: Option<FireReason>)
        ensures
            r == old(self).look(now_ms),
            *final(self) == old(self).after_look(now_ms),
    {
        if self.fired {
            return None;
        }
        self.fired = true;
        if self.max_lifetime_secs > 0 && now_ms / 1000 >= self.max_lifetime_secs {
            return Some(FireReason::MaxLifetime);
        }
        let max_secs: u64 = self.max_no_progress_secs;
        if max_secs > 0 && self.total_requests > 0 {
            if self.last_success_ms == 0 {
                let secs_since_first_request: u64 = now_ms.saturating_sub(self.first_request_ms)
                    / 1000;
                if secs_since_first_request >= max_secs {
                    return Some(FireReason::NoSuccess);
                }
            }
            if self.last_failure_ms > self.last_success_ms {
                let since_ms: u64 = if self.last_success_ms > 0 {
                    self.last_success_ms
                } else {
                    self.last_failure_ms
                };
                let secs_without_success: u64 = now_ms.saturating_sub(since_ms) / 1000;
                if secs_without_success >= max_secs {
                    return Some(FireReason::FailureTimeout);
                }
            }
        }
        if max_secs > 0 && self.in_flight_start_ms > 0 {
            let in_flight_secs: u64 = now_ms.saturating_sub(self.in_flight_start_ms) / 1000;
            if in_flight_secs >= max_secs {
                return Some(FireReason::InFlightStuck);
            }
        }
        self.fired = false;
        None
    }

    /// Looks whether the worker should exit now, and why.
    pub fn poll(&mut self) -> (r: Option<FireReason>)
        ensures
            old(self).clock.looked_at(final(self).clock),
            r == old(self).look(final(self).clock.latest_ms()),
            *final(self) == old(self).with_clock(final(self).clock).after_look(
                final(self).clock.latest_ms(),
            ),
    {
        let now_ms: u64 = self.clock.elapsed_ms();
        self.poll_at(now_ms)
    }

    /// Looks whether the worker should exit at a time; the reason in words.
    pub fn check_at(&mut self, now_ms: u64) -> (r: Option<&'static str>)
        ensures
            r is Some <==> old(self).look(now_ms) is Some,
            r is Some ==> r->0@ == old(self).look(now_ms)->0.words(),
            *final(self) == old(self).after_look(now_ms),
    {
        match self.poll_at(now_ms) {
            Some(reason) => Some(reason.label()),
            None => None,
        }
    }

    /// Looks whether the worker should exit now; the reason in words. Once a reason was given,
    /// no later look gives one.
    pub fn check(&mut self) -> (r: Option<&'static str>)
        ensures
            old(self).clock.looked_at(final(self).clock),
            r is Some <==> old(self).look(final(self).clock.latest_ms()) is Some,
            r is Some ==> r->0@ == old(self).look(final(self).clock.latest_ms())->0.words(),
            *final(self) == old(self).with_clock(final(self).clock).after_look(
                final(self).clock.latest_ms(),
            ),
    {
        let now_ms: u64 = self.clock.elapsed_ms();
        self.check_at(now_ms)
    }

    /// Whether any limit is set.
    pub fn is_enabled(&self) -> (r: bool)
        ensures
            r == (self.max_no_progress_secs > 0 || self.max_requests > 0 || self.max_lifetime_secs
                > 0),
    {
        self.max_no_progress_secs > 0 || self.max_requests > 0 || self.max_lifetime_secs > 0
    }
}

/// A watchdog without limits never gives a reason and never has the worker recycled.
pub proof fn lemma_without_limits_nothing_fires(w: ProgressWatchdog, now_ms: u64)
    requires
        w.max_no_progress_secs == 0,
        w.max_requests == 0,
        w.max_lifetime_secs == 0,
    ensures
        w.verdict(now_ms) is None,
        !w.recycle_due(),
{
}

/// Without traffic only the lifetime ends the worker.
pub proof fn lemma_no_traffic_does_not_fire(w: ProgressWatchdog, now_ms: u64)
    requires
        w.total_requests == 0,
        w.in_flight_start_ms == 0,
    ensures
        w.verdict(now_ms) is Some ==> w.lifetime_reached(now_ms),
{
}

/// A request that gets no response makes the watchdog fire once the limit has passed since
/// its start.
pub proof fn lemma_stuck_request_fires(w: ProgressWatchdog, started_ms: u64, now_ms: u64)
    requires
        started_ms < u64::MAX,
        w.max_no_progress_secs > 0,
        overdue(now_ms, stamp(started_ms), w.max_no_progress_secs),
    ensures
        w.after_request_start(started_ms).verdict(now_ms) is Some,
{
}

/// A reason to exit does not go away with time: where there is one, there is one later.
pub proof fn lemma_verdict_stays(w: ProgressWatchdog, now_ms: u64, later_ms: u64)
    requires
        now_ms <= later_ms,
        w.verdict(now_ms) is Some,
    ensures
        w.verdict(later_ms) is Some,
{
}

/// A second look gives no reason after one that gave a reason; after one that gave none, it
/// gives what a first look would.
pub proof fn lemma_fires_at_most_once(w: ProgressWatchdog, first_ms: u64, second_ms: u64)
    ensures
        w.look(first_ms) is Some ==> w.after_look(first_ms).look(second_ms) is None,
        w.look(first_ms) is None ==> w.after_look(first_ms).look(second_ms) == w.look(second_ms),
{
}

/// A response, successful or not, ends the request in flight and changes no limit.
pub proof fn lemma_response_ends_request(w: ProgressWatchdog, started_ms: u64, ended_ms: u64)
    ensures
        w.after_request_start(started_ms).after_response_ok(ended_ms).in_flight_start_ms == 0,
        w.after_request_start(started_ms).after_response_err(ended_ms).in_flight_start_ms == 0,
        started_ms < u64::MAX ==> w.after_request_start(started_ms).in_flight_start_ms > 0,
{
}

/// Something that happens to the watchdog, with the time at which it happens.
pub enum ProgressEvent {
    RequestStart(u64),
    ResponseOk(u64),
    ResponseErr(u64),
    /// A look whether the worker should exit.
    Look(u64),
}

impl ProgressEvent {
    /// When the event happened.
    pub open spec fn time_ms(self) -> u64 {
        match self {
            ProgressEvent::RequestStart(now_ms) => now_ms,
            ProgressEvent::ResponseOk(now_ms) => now_ms,
            ProgressEvent::ResponseErr(now_ms) => now_ms,
            ProgressEvent::Look(now_ms) => now_ms,
        }
    }
}

/// Whether the events happened one after the other on a clock that has not run out.
pub open spec fn in_order(events: Seq<ProgressEvent>) -> bool {
    &&& forall|i: int, j: int|
        0 <= i <= j < events.len() ==> events[i].time_ms() <= events[j].time_ms()
    &&& forall|i: int| 0 <= i < events.len() ==> (#[trigger] events[i]).time_ms() < u64::MAX
}

/// How many of the events satisfy a condition.
pub open spec fn count_of(
    events: Seq<ProgressEvent>,
    condition: spec_fn(ProgressEvent) -> bool,
) -> nat {
    events.filter(condition).len()
}

/// The stamp of the latest event that satisfies a condition, 0 where there is none.
pub open spec fn latest(
    events: Seq<ProgressEvent>,
    condition: spec_fn(ProgressEvent) -> bool,
) -> u64
    decreases events.len(),
{
    if events.len() == 0 {
        0
    } else if condition(events.last()) {
        stamp(events.last().time_ms())
    } else {
        latest(events.drop_last(), condition)
    }
}

/// The stamp of the earliest event that satisfies a condition, 0 where there is none.
pub open spec fn earliest(
    events: Seq<ProgressEvent>,
    condition: spec_fn(ProgressEvent) -> bool,
) -> u64
    decreases events.len(),
{
    if events.len() == 0 {
        0
    } else if earliest(events.drop_last(), condition) > 0 {
        earliest(events.drop_last(), condition)
    } else if condition(events.last()) {
        stamp(events.last().time_ms())
    } else {
        0
    }
}

/// The stamp of the request that is in flight after the events, 0 where none is: that of the
/// latest event that is not a look, where it is the start of a request.
pub open spec fn in_flight(events: Seq<ProgressEvent>) -> u64
    decreases events.len(),
{
    if events.len() == 0 {
        0
    } else {
        match events.last() {
            ProgressEvent::RequestStart(now_ms) => stamp(now_ms),
            ProgressEvent::Look(_) => in_flight(events.drop_last()),
            _ => 0,
        }
    }
}

impl ProgressWatchdog {
    /// The watchdog after an event.
    pub open spec fn after_event(self, event: ProgressEvent) -> Self {
        match event {
            ProgressEvent::RequestStart(now_ms) => self.after_request_start(now_ms),
            ProgressEvent::ResponseOk(now_ms) => self.after_response_ok(now_ms),
            ProgressEvent::ResponseErr(now_ms) => self.after_response_err(now_ms),
            ProgressEvent::Look(now_ms) => self.after_look(now_ms),
        }
    }

    /// The watchdog after events, the first of them first.
    pub open spec fn after_events(self, events: Seq<ProgressEvent>) -> Self
        decreases events.len(),
    {
        if events.len() == 0 {
            self
        } else {
            self.after_events(events.drop_last()).after_event(events.last())
        }
    }
}

/// The counters count: after any history of fewer than 2^64 events they are the numbers of
/// requests, successful responses and failed responses in it. The limits and the clock are
/// what they were.
pub proof fn lemma_counters_count(w: ProgressWatchdog, events: Seq<ProgressEvent>)
    requires
        w.is_fresh(),
        events.len() <= u64::MAX,
    ensures
        w.after_events(events).total_requests == count_of(
            events,
            |e: ProgressEvent| e is RequestStart,
        ),
        w.after_events(events).total_successes == count_of(
            events,
            |e: ProgressEvent| e is ResponseOk,
        ),
        w.after_events(events).total_failures == count_of(
            events,
            |e: ProgressEvent| e is ResponseErr,
        ),
        w.after_events(events).max_no_progress_secs == w.max_no_progress_secs,
        w.after_events(events).max_requests == w.max_requests,
        w.after_events(events).max_lifetime_secs == w.max_lifetime_secs,
        w.after_events(events).clock == w.clock,
    decreases events.len(),
{
    reveal(Seq::filter);
    if events.len() > 0 {
        lemma_counters_count(w, events.drop_last());
        lemma_count_of_at_most_len(events.drop_last(), |e: ProgressEvent| e is RequestStart);
        lemma_count_of_at_most_len(events.drop_last(), |e: ProgressEvent| e is ResponseOk);
        lemma_count_of_at_most_len(events.drop_last(), |e: ProgressEvent| e is ResponseErr);
    }
}

proof fn lemma_count_of_at_most_len(
    events: Seq<ProgressEvent>,
    condition: spec_fn(ProgressEvent) -> bool,
)
    ensures
        count_of(events, condition) <= events.len(),
    decreases events.len(),
{
    reveal(Seq::filter);
    if events.len() > 0 {
        lemma_count_of_at_most_len(events.drop_last(), condition);
    }
}

/// The stamps are those of the events: of the latest success, the latest failure, the first
/// request and the request in flight.
pub proof fn lemma_stamps_are_those_of_the_events(w: ProgressWatchdog, events: Seq<ProgressEvent>)
    requires
        w.is_fresh(),
    ensures
        w.after_events(events).last_success_ms == latest(
            events,
            |e: ProgressEvent| e is ResponseOk,
        ),
        w.after_events(events).last_failure_ms == latest(
            events,
            |e: ProgressEvent| e is ResponseErr,
        ),
        w.after_events(events).first_request_ms == earliest(
            events,
            |e: ProgressEvent| e is RequestStart,
        ),
        w.after_events(events).in_flight_start_ms == in_flight(events),
    decreases events.len(),
{
    if events.len() > 0 {
        lemma_stamps_are_those_of_the_events(w, events.drop_last());
    }
}

/// A stamp is zero exactly where what it is the stamp of has not happened, whatever the
/// history: no success, no failure, no request yet. A request is in flight exactly where the
/// latest event that is not a look is the start of one.
pub proof fn lemma_zero_means_not_yet(w: ProgressWatchdog, events: Seq<ProgressEvent>)
    requires
        w.is_fresh(),
        in_order(events),
        events.len() <= u64::MAX,
    ensures
        w.after_events(events).last_success_ms == 0 <==> w.after_events(events).total_successes
            == 0,
        w.after_events(events).last_failure_ms == 0 <==> w.after_events(events).total_failures == 0,
        w.after_events(events).first_request_ms == 0 <==> w.after_events(events).total_requests
            == 0,
        w.after_events(events).in_flight_start_ms != 0 <==> exists|i: int|
            {
                &&& 0 <= i < events.len()
                &&& (#[trigger] events[i]) is RequestStart
                &&& forall|j: int| i < j < events.len() ==> (#[trigger] events[j]) is Look
            },
{
    lemma_counters_count(w, events);
    lemma_stamps_are_those_of_the_events(w, events);
    lemma_stamp_is_zero_where_the_count_is(events, |e: ProgressEvent| e is RequestStart);
    lemma_stamp_is_zero_where_the_count_is(events, |e: ProgressEvent| e is ResponseOk);
    lemma_stamp_is_zero_where_the_count_is(events, |e: ProgressEvent| e is ResponseErr);
    lemma_in_flight(events);
}

proof fn lemma_order_of_earlier(events: Seq<ProgressEvent>)
    requires
        in_order(events),
        events.len() > 0,
    ensures
        in_order(events.drop_last()),
{
    let rest = events.drop_last();
    assert(forall|i: int| 0 <= i < rest.len() ==> #[trigger] rest[i] == events[i]);
}

proof fn lemma_stamp_is_zero_where_the_count_is(
    events: Seq<ProgressEvent>,
    condition: spec_fn(ProgressEvent) -> bool,
)
    requires
        in_order(events),
    ensures
        latest(events, condition) == 0 <==> count_of(events, condition) == 0,
        earliest(events, condition) == 0 <==> count_of(events, condition) == 0,
    decreases events.len(),
{
    reveal(Seq::filter);
    if events.len() > 0 {
        lemma_order_of_earlier(events);
        lemma_stamp_is_zero_where_the_count_is(events.drop_last(), condition);
        assert(events.last() == events[events.len() - 1]);
    }
}

proof fn lemma_in_flight(events: Seq<ProgressEvent>)
    requires
        in_order(events),
    ensures
        in_flight(events) != 0 <==> exists|i: int|
            {
                &&& 0 <= i < events.len()
                &&& (#[trigger] events[i]) is RequestStart
                &&& forall|j: int| i < j < events.len() ==> (#[trigger] events[j]) is Look
            },
    decreases events.len(),
{
    if events.len() > 0 {
        let rest = events.drop_last();
        let last = events.len() - 1;
        lemma_order_of_earlier(events);
        lemma_in_flight(rest);
        assert(events.last() == events[last]);
        assert(forall|i: int| 0 <= i < rest.len() ==> #[trigger] rest[i] == events[i]);
        if in_flight(events) != 0 && events.last() is Look {
            let i = choose|i: int|
                {
                    &&& 0 <= i < rest.len()
                    &&& (#[trigger] rest[i]) is RequestStart
                    &&& forall|j: int| i < j < rest.len() ==> (#[trigger] rest[j]) is Look
                };
            assert(events[i] is RequestStart);
            assert forall|j: int| i < j < events.len() implies (#[trigger] events[j]) is Look by {
                if j < last {
                    assert(rest[j] is Look);
                }
            }
        }
        if exists|i: int|
            {
                &&& 0 <= i < events.len()
                &&& (#[trigger] events[i]) is RequestStart
                &&& forall|j: int| i < j < events.len() ==> (#[trigger] events[j]) is Look
            } {
            let i = choose|i: int|
                {
                    &&& 0 <= i < events.len()
                    &&& (#[trigger] events[i]) is RequestStart
                    &&& forall|j: int| i < j < events.len() ==> (#[trigger] events[j]) is Look
                };
            if i < last {
                assert(events[last] is Look);
                assert(rest[i] is RequestStart);
                assert forall|j: int| i < j < rest.len() implies (#[trigger] rest[j]) is Look by {
                    assert(events[j] is Look);
                }
            }
        }
    }
}

/// Two snapshots with nothing but looks between them agree in all but the time, no stamp is
/// after the present, and a request in flight is not older than the first request.
pub proof fn lemma_snapshots_agree(
    w: ProgressWatchdog,
    events: Seq<ProgressEvent>,
    looks: Seq<ProgressEvent>,
    first_ms: u64,
    second_ms: u64,
)
    requires
        w.is_fresh(),
        in_order(events),
        forall|i: int| 0 <= i < events.len() ==> (#[trigger] events[i]).time_ms() <= second_ms,
        forall|i: int| 0 <= i < looks.len() ==> (#[trigger] looks[i]) is Look,
    ensures
        w.after_events(events + looks).health(second_ms) == (HealthSnapshot {
            now_ms: second_ms,
            ..w.after_events(events).health(first_ms)
        }),
        w.after_events(events + looks).last_success_ms <= second_ms + 1,
        w.after_events(events + looks).last_failure_ms <= second_ms + 1,
        w.after_events(events + looks).first_request_ms <= second_ms + 1,
        w.after_events(events + looks).in_flight_start_ms <= second_ms + 1,
        w.after_events(events + looks).in_flight_start_ms > 0 ==> 0 < w.after_events(
            events + looks,
        ).first_request_ms <= w.after_events(events + looks).in_flight_start_ms,
{
    lemma_looks_change_nothing(w, events, looks);
    lemma_stamps_are_past(w, events, second_ms);
}

/// Of two snapshots that are taken one after the other, the later has no smaller time, as long
/// as the milliseconds fit in 64 bits, and all else is the same.
pub proof fn lemma_snapshots_are_in_order(
    w: ProgressWatchdog,
    after_first: ProgressWatchdog,
    after_second: ProgressWatchdog,
    first: HealthSnapshot,
    second: HealthSnapshot,
)
    requires
        w.clock.looked_at(after_first.clock),
        after_first == w.with_clock(after_first.clock),
        first == after_first.health(after_first.clock.latest_ms()),
        after_first.clock.looked_at(after_second.clock),
        after_second == after_first.with_clock(after_second.clock),
        second == after_second.health(after_second.clock.latest_ms()),
        after_second.clock.latest() / 1_000_000 <= u64::MAX,
    ensures
        first.now_ms <= second.now_ms,
        second == (HealthSnapshot { now_ms: second.now_ms, ..first }),
{
    lemma_clock_does_not_go_back(after_first.clock, after_second.clock);
}

/// Looks change nothing but whether the watchdog has fired.
proof fn lemma_looks_change_nothing(
    w: ProgressWatchdog,
    events: Seq<ProgressEvent>,
    looks: Seq<ProgressEvent>,
)
    requires
        forall|i: int| 0 <= i < looks.len() ==> (#[trigger] looks[i]) is Look,
    ensures
        w.after_events(events + looks) == (ProgressWatchdog {
            fired: w.after_events(events + looks).fired,
            ..w.after_events(events)
        }),
    decreases looks.len(),
{
    if looks.len() == 0 {
        assert(events + looks =~= events);
    } else {
        let all = events + looks;
        assert(all.drop_last() =~= events + looks.drop_last());
        assert(all.last() == looks[looks.len() - 1]);
        assert(forall|i: int|
            0 <= i < looks.drop_last().len() ==> #[trigger] looks.drop_last()[i] == looks[i]);
        lemma_looks_change_nothing(w, events, looks.drop_last());
    }
}

/// No stamp is after a time that no event is after, and a request in flight is not older than
/// the first request.
proof fn lemma_stamps_are_past(w: ProgressWatchdog, events: Seq<ProgressEvent>, now_ms: u64)
    requires
        w.is_fresh(),
        in_order(events),
        forall|i: int| 0 <= i < events.len() ==> (#[trigger] events[i]).time_ms() <= now_ms,
    ensures
        w.after_events(events).last_success_ms <= now_ms + 1,
        w.after_events(events).last_failure_ms <= now_ms + 1,
        w.after_events(events).first_request_ms <= now_ms + 1,
        w.after_events(events).in_flight_start_ms <= now_ms + 1,
        w.after_events(events).in_flight_start_ms > 0 ==> 0 < w.after_events(
            events,
        ).first_request_ms <= w.after_events(events).in_flight_start_ms,
    decreases events.len(),
{
    if events.len() > 0 {
        let rest = events.drop_last();
        let last_ms = events.last().time_ms();
        lemma_order_of_earlier(events);
        assert(events.last() == events[events.len() - 1]);
        assert forall|i: int| 0 <= i < rest.len() implies (#[trigger] rest[i]).time_ms()
            <= last_ms by {
            assert(rest[i] == events[i]);
        }
        lemma_stamps_are_past(w, rest, last_ms);
    }
}

/// The worker is recycled with exactly the successful response that makes the number of
/// successful responses reach the limit, and with each one after it.
pub proof fn lemma_recycled_at_the_limit(w: ProgressWatchdog, events: Seq<ProgressEvent>)
    requires
        w.is_fresh(),
        events.len() <= u64::MAX,
    ensures
        w.after_events(events).recycle_due() <==> 0 < w.max_requests <= count_of(
            events,
            |e: ProgressEvent| e is ResponseOk,
        ),
{
    lemma_counters_count(w, events);
}

/// However long the worker is idle after a successful response, and whatever came before it,
/// only the lifetime ends the worker.
pub proof fn lemma_idle_after_success_does_not_fire(
    w: ProgressWatchdog,
    events: Seq<ProgressEvent>,
    looks: Seq<ProgressEvent>,
    now_ms: u64,
)
    requires
        w.is_fresh(),
        in_order(events),
        events.len() > 0,
        events.last() is ResponseOk,
        forall|i: int| 0 <= i < looks.len() ==> (#[trigger] looks[i]) is Look,
    ensures
        w.after_events(events + looks).verdict(now_ms) is Some ==> w.lifetime_reached(now_ms),
{
    lemma_looks_change_nothing(w, events, looks);
    assert(events.last() == events[events.len() - 1]);
    lemma_stamps_are_past(w, events, events.last().time_ms());
    lemma_limits_stay(w, events);
}

proof fn lemma_limits_stay(w: ProgressWatchdog, events: Seq<ProgressEvent>)
    ensures
        w.after_events(events).max_no_progress_secs == w.max_no_progress_secs,
        w.after_events(events).max_lifetime_secs == w.max_lifetime_secs,
    decreases events.len(),
{
    if events.len() > 0 {
        lemma_limits_stay(w, events.drop_last());
    }
}

/// Where requests come and none ever succeeds, the watchdog fires once the limit has passed
/// since the first request: nothing but a success puts the moment off.
pub proof fn lemma_never_successful_fires(
    w: ProgressWatchdog,
    events: Seq<ProgressEvent>,
    first: int,
    now_ms: u64,
)
    requires
        w.is_fresh(),
        in_order(events),
        0 <= first < events.len() <= u64::MAX,
        events[first] is RequestStart,
        forall|i: int| 0 <= i < first ==> !((#[trigger] events[i]) is RequestStart),
        forall|i: int| 0 <= i < events.len() ==> !((#[trigger] events[i]) is ResponseOk),
        w.max_no_progress_secs > 0,
        overdue(now_ms, stamp(events[first].time_ms()), w.max_no_progress_secs),
    ensures
        w.after_events(events).verdict(now_ms) is Some,
{
    let starts = |e: ProgressEvent| e is RequestStart;
    lemma_counters_count(w, events);
    lemma_stamps_are_those_of_the_events(w, events);
    lemma_earliest_is_at(events, starts, first);
    lemma_stamp_is_zero_where_the_count_is(events, starts);
    lemma_latest_of_none(events, |e: ProgressEvent| e is ResponseOk);
}

/// Where responses fail after a success and none succeeds any more, the watchdog fires once
/// the limit has passed since that success, however many failures come and whenever they do.
/// One of them must be at least a millisecond later than the success.
pub proof fn lemma_failing_since_a_success_fires(
    w: ProgressWatchdog,
    events: Seq<ProgressEvent>,
    request: int,
    success: int,
    failure: int,
    now_ms: u64,
)
    requires
        w.is_fresh(),
        in_order(events),
        events.len() <= u64::MAX,
        0 <= request < events.len(),
        events[request] is RequestStart,
        0 <= success < failure < events.len(),
        events[success] is ResponseOk,
        forall|i: int| success < i < events.len() ==> !((#[trigger] events[i]) is ResponseOk),
        events[failure] is ResponseErr,
        events[success].time_ms() < events[failure].time_ms(),
        w.max_no_progress_secs > 0,
        overdue(now_ms, stamp(events[success].time_ms()), w.max_no_progress_secs),
    ensures
        w.after_events(events).verdict(now_ms) is Some,
{
    let starts = |e: ProgressEvent| e is RequestStart;
    let failures = |e: ProgressEvent| e is ResponseErr;
    let successes = |e: ProgressEvent| e is ResponseOk;
    lemma_counters_count(w, events);
    lemma_stamps_are_those_of_the_events(w, events);
    lemma_latest_is_at(events, successes, success);
    lemma_latest_is_not_before(events, failures, failure);
    lemma_latest_is_not_before(events, starts, request);
    lemma_stamp_is_zero_where_the_count_is(events, starts);
}

proof fn lemma_latest_of_none(
    events: Seq<ProgressEvent>,
    condition: spec_fn(ProgressEvent) -> bool,
)
    requires
        forall|i: int| 0 <= i < events.len() ==> !condition(#[trigger] events[i]),
    ensures
        latest(events, condition) == 0,
    decreases events.len(),
{
    if events.len() > 0 {
        let rest = events.drop_last();
        assert(events.last() == events[events.len() - 1]);
        assert forall|i: int| 0 <= i < rest.len() implies !condition(#[trigger] rest[i]) by {
            assert(rest[i] == events[i]);
        }
        lemma_latest_of_none(rest, condition);
    }
}

proof fn lemma_latest_is_at(
    events: Seq<ProgressEvent>,
    condition: spec_fn(ProgressEvent) -> bool,
    k: int,
)
    requires
        0 <= k < events.len(),
        condition(events[k]),
        forall|i: int| k < i < events.len() ==> !condition(#[trigger] events[i]),
    ensures
        latest(events, condition) == stamp(events[k].time_ms()),
    decreases events.len(),
{
    assert(events.last() == events[events.len() - 1]);
    if k < events.len() - 1 {
        let rest = events.drop_last();
        assert forall|i: int| k < i < rest.len() implies !condition(#[trigger] rest[i]) by {
            assert(rest[i] == events[i]);
        }
        lemma_latest_is_at(rest, condition, k);
    }
}

proof fn lemma_latest_is_not_before(
    events: Seq<ProgressEvent>,
    condition: spec_fn(ProgressEvent) -> bool,
    k: int,
)
    requires
        in_order(events),
        0 <= k < events.len(),
        condition(events[k]),
    ensures
        latest(events, condition) >= stamp(events[k].time_ms()) > 0,
    decreases events.len(),
{
    assert(events.last() == events[events.len() - 1]);
    if !condition(events.last()) {
        lemma_order_of_earlier(events);
        lemma_latest_is_not_before(events.drop_last(), condition, k);
    }
}

proof fn lemma_earliest_is_at(
    events: Seq<ProgressEvent>,
    condition: spec_fn(ProgressEvent) -> bool,
    k: int,
)
    requires
        in_order(events),
        0 <= k < events.len(),
        condition(events[k]),
        forall|i: int| 0 <= i < k ==> !condition(#[trigger] events[i]),
    ensures
        earliest(events, condition) == stamp(events[k].time_ms()) > 0,
    decreases events.len(),
{
    let rest = events.drop_last();
    assert(events.last() == events[events.len() - 1]);
    assert(forall|i: int| 0 <= i < rest.len() ==> #[trigger] rest[i] == events[i]);
    lemma_order_of_earlier(events);
    if k < rest.len() {
        lemma_earliest_is_at(rest, condition, k);
    } else {
        lemma_earliest_of_none(rest, condition);
    }
}

proof fn lemma_earliest_of_none(
    events: Seq<ProgressEvent>,
    condition: spec_fn(ProgressEvent) -> bool,
)
    requires
        forall|i: int| 0 <= i < events.len() ==> !condition(#[trigger] events[i]),
    ensures
        earliest(events, condition) == 0,
    decreases events.len(),
{
    if events.len() > 0 {
        let rest = events.drop_last();
        assert(events.last() == events[events.len() - 1]);
        assert forall|i: int| 0 <= i < rest.len() implies !condition(#[trigger] rest[i]) by {
            assert(rest[i] == events[i]);
        }
        lemma_earliest_of_none(rest, condition);
    }
}

/// The lifetime ends the worker when it is reached and not before, whatever happened until
/// then.
pub proof fn lemma_lifetime_ends_the_worker(
    w: ProgressWatchdog,
    events: Seq<ProgressEvent>,
    now_ms: u64,
)
    ensures
        w.after_events(events).verdict(now_ms) == Some(FireReason::MaxLifetime) <==> 0
            < w.max_lifetime_secs <= now_ms as int / 1000,
{
    lemma_limits_stay(w, events);
}

/// What a look gives, in milliseconds and for every limit: the end of the lifetime once as many
/// seconds as are set have passed since the clock was started; else, where requests came and
/// none has ever succeeded, that no success came once the limit has passed since the first of
/// them; else, where a response has failed since the last success, that responses fail once the
/// limit has passed since that success, or since the failure where there was no success; else
/// that a request is stuck once the limit has passed since its start; else nothing. A limit of
/// zero is none.
pub proof fn lemma_look_counts_milliseconds(w: ProgressWatchdog, now_ms: u64)
    requires
        !w.fired,
    ensures
        ({
            let limit_ms = 1000 * w.max_no_progress_secs;
            let lifetime = 0 < w.max_lifetime_secs && now_ms >= 1000 * w.max_lifetime_secs;
            let no_success = limit_ms > 0 && w.total_requests > 0 && w.last_success_ms == 0
                && now_ms - w.first_request_ms >= limit_ms;
            let failing = limit_ms > 0 && w.total_requests > 0 && w.last_failure_ms
                > w.last_success_ms && if w.last_success_ms > 0 {
                now_ms - w.last_success_ms >= limit_ms
            } else {
                now_ms - w.last_failure_ms >= limit_ms
            };
            let stuck = limit_ms > 0 && w.in_flight_start_ms > 0 && now_ms - w.in_flight_start_ms
                >= limit_ms;
            &&& w.look(now_ms) == Some(FireReason::MaxLifetime) <==> lifetime
            &&& w.look(now_ms) == Some(FireReason::NoSuccess) <==> !lifetime && no_success
            &&& w.look(now_ms) == Some(FireReason::FailureTimeout) <==> !lifetime && !no_success
                && failing
            &&& w.look(now_ms) == Some(FireReason::InFlightStuck) <==> !lifetime && !no_success
                && !failing && stuck
            &&& w.look(now_ms) is None <==> !lifetime && !no_success && !failing && !stuck
        }),
{
}

/// A look changes nothing but that the watchdog has fired, which it has once a reason was given
/// or it had before; and one that has fired gives no reason at any time.
pub proof fn lemma_look_changes_only_fired(w: ProgressWatchdog, now_ms: u64, later_ms: u64)
    ensures
        w.after_look(now_ms).fired <==> w.fired || w.look(now_ms) is Some,
        w.after_look(now_ms) == (ProgressWatchdog { fired: w.after_look(now_ms).fired, ..w }),
        w.after_look(now_ms).fired ==> w.after_look(now_ms).look(later_ms) is None,
        w.fired ==> w.look(now_ms) is None,
{
}

/// What the start of a request, a success and a failure leave behind: one more of their kind,
/// and the time plus one as the stamp. The first request keeps its stamp, and a response ends
/// the request in flight. All else stays.
pub proof fn lemma_marks(w: ProgressWatchdog, now_ms: u64)
    requires
        now_ms < u64::MAX,
        w.total_requests < u64::MAX,
        w.total_successes < u64::MAX,
        w.total_failures < u64::MAX,
    ensures
        w.after_request_start(now_ms) == (ProgressWatchdog {
            total_requests: (w.total_requests + 1) as u64,
            first_request_ms: if w.first_request_ms > 0 {
                w.first_request_ms
            } else {
                (now_ms + 1) as u64
            },
            in_flight_start_ms: (now_ms + 1) as u64,
            ..w
        }),
        w.after_response_ok(now_ms) == (ProgressWatchdog {
            total_successes: (w.total_successes + 1) as u64,
            last_success_ms: (now_ms + 1) as u64,
            in_flight_start_ms: 0,
            ..w
        }),
        w.after_response_err(now_ms) == (ProgressWatchdog {
            total_failures: (w.total_failures + 1) as u64,
            last_failure_ms: (now_ms + 1) as u64,
            in_flight_start_ms: 0,
            ..w
        }),
        w.after_response_ok(now_ms).recycle_due() <==> 0 < w.max_requests <= w.total_successes + 1,
{
}

/// A counter that has reached its end starts again at zero, for each kind of event.
pub proof fn lemma_full_counters_start_again(w: ProgressWatchdog, now_ms: u64)
    ensures
        w.total_requests == u64::MAX ==> w.after_request_start(now_ms).total_requests == 0,
        w.total_successes == u64::MAX ==> w.after_response_ok(now_ms).total_successes == 0,
        w.total_failures == u64::MAX ==> w.after_response_err(now_ms).total_failures == 0,
{
}

/// A look gives a reason as soon as the limit has passed, in milliseconds and for every limit:
/// since the first request, where none has succeeded; since the last success, where a response
/// has failed since; and since the start of the request in flight.
pub proof fn lemma_reason_at_the_limit(
    w: ProgressWatchdog,
    events: Seq<ProgressEvent>,
    request: int,
    success: int,
    failure: int,
    now_ms: u64,
)
    requires
        w.is_fresh(),
        in_order(events),
        0 <= request < events.len() <= u64::MAX,
        events[request] is RequestStart,
        w.max_no_progress_secs > 0,
    ensures
        (forall|i: int| 0 <= i < events.len() ==> !((#[trigger] events[i]) is ResponseOk))
            && now_ms >= events[request].time_ms() + 1 + 1000 * w.max_no_progress_secs
            ==> w.after_events(events).verdict(now_ms) is Some,
        0 <= success < failure < events.len() && events[success] is ResponseOk
            && events[failure] is ResponseErr && events[success].time_ms()
            < events[failure].time_ms() && (forall|i: int|
            success < i < events.len() ==> !((#[trigger] events[i]) is ResponseOk)) && now_ms
            >= events[success].time_ms() + 1 + 1000 * w.max_no_progress_secs ==> w.after_events(
            events,
        ).verdict(now_ms) is Some,
        (forall|i: int| request < i < events.len() ==> (#[trigger] events[i]) is Look) && now_ms
            >= events[request].time_ms() + 1 + 1000 * w.max_no_progress_secs ==> w.after_events(
            events,
        ).verdict(now_ms) is Some,
{
    let starts = |e: ProgressEvent| e is RequestStart;
    if (forall|i: int| 0 <= i < events.len() ==> !((#[trigger] events[i]) is ResponseOk))
        && now_ms >= events[request].time_ms() + 1 + 1000 * w.max_no_progress_secs {
        let first = lemma_first_index(events, starts, request);
        assert(events[first].time_ms() <= events[request].time_ms());
        lemma_never_successful_fires(w, events, first, now_ms);
    }
    if 0 <= success < failure < events.len() && events[success] is ResponseOk
        && events[failure] is ResponseErr && events[success].time_ms()
        < events[failure].time_ms() && (forall|i: int|
        success < i < events.len() ==> !((#[trigger] events[i]) is ResponseOk)) && now_ms
        >= events[success].time_ms() + 1 + 1000 * w.max_no_progress_secs {
        lemma_failing_since_a_success_fires(w, events, request, success, failure, now_ms);
    }
    if (forall|i: int| request < i < events.len() ==> (#[trigger] events[i]) is Look) && now_ms
        >= events[request].time_ms() + 1 + 1000 * w.max_no_progress_secs {
        let started = events.take(request + 1);
        let looks = events.skip(request + 1);
        assert(started + looks =~= events);
        assert(started.last() == events[request]);
        lemma_looks_change_nothing(w, started, looks);
        lemma_limits_stay(w, started);
        lemma_stuck_request_fires(
            w.after_events(started.drop_last()),
            events[request].time_ms(),
            now_ms,
        );
        lemma_limits_stay(w, started.drop_last());
    }
}

/// The first event that satisfies a condition.
proof fn lemma_first_index(
    events: Seq<ProgressEvent>,
    condition: spec_fn(ProgressEvent) -> bool,
    k: int,
) -> (first: int)
    requires
        0 <= k < events.len(),
        condition(events[k]),
    ensures
        0 <= first <= k,
        condition(events[first]),
        forall|i: int| 0 <= i < first ==> !condition(#[trigger] events[i]),
    decreases k,
{
    if exists|i: int| 0 <= i < k && condition(#[trigger] events[i]) {
        let i = choose|i: int| 0 <= i < k && condition(#[trigger] events[i]);
        lemma_first_index(events, condition, i)
    } else {
        k
    }
}

/// A look gives a reason only where its time has come, in milliseconds and for every limit:
/// there is a request that is the first, or a success or a failure that is the last of its
/// kind, or the start of the request in flight, and as many seconds as are set lie between it
/// and the look.
pub proof fn lemma_no_reason_before_the_limit(
    w: ProgressWatchdog,
    events: Seq<ProgressEvent>,
    now_ms: u64,
)
    requires
        w.is_fresh(),
        in_order(events),
        events.len() <= u64::MAX,
    ensures
        w.after_events(events).verdict(now_ms) == Some(FireReason::NoSuccess) ==> {
            &&& w.max_no_progress_secs > 0
            &&& forall|i: int| 0 <= i < events.len() ==> !((#[trigger] events[i]) is ResponseOk)
            &&& exists|i: int|
                {
                    &&& 0 <= i < events.len()
                    &&& (#[trigger] events[i]) is RequestStart
                    &&& now_ms >= events[i].time_ms() + 1 + 1000 * w.max_no_progress_secs
                }
        },
        w.after_events(events).verdict(now_ms) == Some(FireReason::FailureTimeout) ==> {
            &&& w.max_no_progress_secs > 0
            &&& exists|i: int|
                {
                    &&& 0 <= i < events.len()
                    &&& (#[trigger] events[i]) is ResponseOk || events[i] is ResponseErr
                    &&& now_ms >= events[i].time_ms() + 1 + 1000 * w.max_no_progress_secs
                    &&& forall|j: int|
                        i < j < events.len() ==> !((#[trigger] events[j]) is ResponseOk)
                }
            &&& exists|i: int|
                {
                    &&& 0 <= i < events.len()
                    &&& (#[trigger] events[i]) is ResponseErr
                    &&& forall|j: int|
                        i < j < events.len() ==> !((#[trigger] events[j]) is ResponseOk)
                }
        },
        w.after_events(events).verdict(now_ms) == Some(FireReason::InFlightStuck) ==> {
            &&& w.max_no_progress_secs > 0
            &&& exists|i: int|
                {
                    &&& 0 <= i < events.len()
                    &&& (#[trigger] events[i]) is RequestStart
                    &&& now_ms >= events[i].time_ms() + 1 + 1000 * w.max_no_progress_secs
                    &&& forall|j: int| i < j < events.len() ==> (#[trigger] events[j]) is Look
                }
        },
{
    let starts = |e: ProgressEvent| e is RequestStart;
    let failures = |e: ProgressEvent| e is ResponseErr;
    let successes = |e: ProgressEvent| e is ResponseOk;
    let after = w.after_events(events);
    lemma_counters_count(w, events);
    lemma_stamps_are_those_of_the_events(w, events);
    lemma_stamp_is_zero_where_the_count_is(events, starts);
    if after.verdict(now_ms) == Some(FireReason::NoSuccess) {
        assert forall|i: int| 0 <= i < events.len() implies !((
        #[trigger] events[i]) is ResponseOk) by {
            if events[i] is ResponseOk {
                lemma_latest_is_not_before(events, successes, i);
            }
        }
        let i = lemma_earliest_has_an_index(events, starts);
        assert(events[i] is RequestStart);
    }
    if after.verdict(now_ms) == Some(FireReason::FailureTimeout) {
        let f = lemma_latest_has_an_index(events, failures);
        assert forall|j: int| f < j < events.len() implies !((
        #[trigger] events[j]) is ResponseOk) by {
            if events[j] is ResponseOk {
                lemma_latest_is_not_before(events, successes, j);
                assert(events[f].time_ms() <= events[j].time_ms());
            }
        }
        assert(events[f] is ResponseErr);
        if after.last_success_ms > 0 {
            let i = lemma_latest_has_an_index(events, successes);
            assert(events[i] is ResponseOk);
        }
    }
    if after.verdict(now_ms) == Some(FireReason::InFlightStuck) {
        let i = lemma_in_flight_has_an_index(events);
        assert(events[i] is RequestStart);
    }
}

proof fn lemma_latest_has_an_index(
    events: Seq<ProgressEvent>,
    condition: spec_fn(ProgressEvent) -> bool,
) -> (i: int)
    requires
        in_order(events),
        latest(events, condition) > 0,
    ensures
        0 <= i < events.len(),
        condition(events[i]),
        latest(events, condition) == events[i].time_ms() + 1,
        forall|j: int| i < j < events.len() ==> !condition(#[trigger] events[j]),
    decreases events.len(),
{
    let last = events.len() - 1;
    assert(events.last() == events[last]);
    if condition(events.last()) {
        last
    } else {
        let rest = events.drop_last();
        lemma_order_of_earlier(events);
        let i = lemma_latest_has_an_index(rest, condition);
        assert(rest[i] == events[i]);
        assert forall|j: int| i < j < events.len() implies !condition(#[trigger] events[j]) by {
            if j < last {
                assert(rest[j] == events[j]);
            }
        }
        i
    }
}

proof fn lemma_earliest_has_an_index(
    events: Seq<ProgressEvent>,
    condition: spec_fn(ProgressEvent) -> bool,
) -> (i: int)
    requires
        in_order(events),
        earliest(events, condition) > 0,
    ensures
        0 <= i < events.len(),
        condition(events[i]),
        earliest(events, condition) == events[i].time_ms() + 1,
    decreases events.len(),
{
    let last = events.len() - 1;
    assert(events.last() == events[last]);
    let rest = events.drop_last();
    lemma_order_of_earlier(events);
    if earliest(rest, condition) > 0 {
        let i = lemma_earliest_has_an_index(rest, condition);
        assert(rest[i] == events[i]);
        i
    } else {
        last
    }
}

proof fn lemma_in_flight_has_an_index(events: Seq<ProgressEvent>) -> (i: int)
    requires
        in_order(events),
        in_flight(events) > 0,
    ensures
        0 <= i < events.len(),
        events[i] is RequestStart,
        in_flight(events) == events[i].time_ms() + 1,
        forall|j: int| i < j < events.len() ==> (#[trigger] events[j]) is Look,
    decreases events.len(),
{
    let last = events.len() - 1;
    assert(events.last() == events[last]);
    if events.last() is RequestStart {
        last
    } else {
        let rest = events.drop_last();
        lemma_order_of_earlier(events);
        let i = lemma_in_flight_has_an_index(rest);
        assert(rest[i] == events[i]);
        assert forall|j: int| i < j < events.len() implies (#[trigger] events[j]) is Look by {
            if j < last {
                assert(rest[j] == events[j]);
            }
        }
        i
    }
}

} // verus!
