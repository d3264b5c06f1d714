//! Statistics of the reply loop. Times are nanoseconds on one clock.

use crate::clock::{Clock, MAX_SPAN_NANOS, NANOS_PER_SEC};
use vstd::prelude::*;
use vstd::seq_lib::{commutative_foldl, lemma_fold_left_permutation};

verus! {

/// Seconds between two reports.
pub const HEALTH_LOG_INTERVAL_SECS: u64 = 60;

/// What is reported of an interval.
#[derive(Clone, Copy, Debug, PartialEq, Eq, Structural)]
pub struct StatsReport {
    pub requests: u64,
    pub mgmt_requests: u64,
    pub inference_requests: u64,
    pub total_response_time: u128,
    pub max_response_time: u128,
    /// How long the interval was.
    pub elapsed: u128,
}

/// Counts of the requests since the interval started.
pub struct LoopStats {
    pub requests: u64,
    pub mgmt_requests: u64,
    pub inference_requests: u64,
    pub total_response_time: u128,
    pub max_response_time: u128,
    /// When the interval started.
    pub interval_started: u128,
    /// The clock that the times are on.
    pub clock: Clock,
}

/// Whether an interval of that length is due for its report.
pub open spec fn is_due(elapsed: u128) -> bool {
    elapsed >= HEALTH_LOG_INTERVAL_SECS * NANOS_PER_SEC
}

impl LoopStats {
    /// An interval that starts at a time, with nothing counted.
    pub open spec fn started_at(clock: Clock, now: u128) -> Self {
        LoopStats {
            requests: 0,
            mgmt_requests: 0,
            inference_requests: 0,
            total_response_time: 0,
            max_response_time: 0,
            interval_started: now,
            clock,
        }
    }

    /// Every request is a model-management or an inference request, and no response took
    /// longer than all of them together.
    pub open spec fn is_consistent(self) -> bool {
        &&& self.requests == self.mgmt_requests + self.inference_requests
        &&& self.max_response_time <= self.total_response_time <= self.requests
            * self.max_response_time
    }

    /// Whether one more request can be counted.
    pub open spec fn has_room(self, response_time: u128) -> bool {
        &&& self.requests < u64::MAX
        &&& self.mgmt_requests < u64::MAX
        &&& self.inference_requests < u64::MAX
        &&& self.total_response_time + response_time <= MAX_SPAN_NANOS
    }

    /// The interval with one more request counted.
    pub open spec fn with_request(self, is_mgmt: bool, response_time: u128) -> Self {
        LoopStats {
            requests: (self.requests + 1) as u64,
            mgmt_requests: if is_mgmt {
                (self.mgmt_requests + 1) as u64
            } else {
                self.mgmt_requests
            },
            inference_requests: if is_mgmt {
                self.inference_requests
            } else {
                (self.inference_requests + 1) as u64
            },
            total_response_time: (self.total_response_time + response_time) as u128,
            max_response_time: if self.max_response_time < response_time {
                response_time
            } else {
                self.max_response_time
            },
            ..self
        }
    }

    /// The statistics with their clock after a look at it.
    pub open spec fn with_clock(self, clock: Clock) -> Self {
        LoopStats { clock, ..self }
    }

    /// How long the interval is at a time.
    pub open spec fn elapsed_at(self, now: u128) -> u128 {
        if now > self.interval_started {
            (now - self.interval_started) as u128
        } else {
            0
        }
    }

    /// The report of the interval at a time.
    pub open spec fn report_at(self, now: u128) -> StatsReport {
        StatsReport {
            requests: self.requests,
            mgmt_requests: self.mgmt_requests,
            inference_requests: self.inference_requests,
            total_response_time: self.total_response_time,
            max_response_time: self.max_response_time,
            elapsed: self.elapsed_at(now),
        }
    }

    /// The report that is given when a request is counted at a time: that of the interval with
    /// the request, where the interval is due.
    pub open spec fn reported(self, is_mgmt: bool, response_time: u128, now: u128) -> Option<
        StatsReport,
    > {
        if is_due(self.elapsed_at(now)) {
            Some(self.with_request(is_mgmt, response_time).report_at(now))
        } else {
            None
        }
    }

    /// The statistics after a request was counted at a time: where the interval was due, the
    /// next one has started then, with nothing counted.
    pub open spec fn after_record(self, is_mgmt: bool, response_time: u128, now: u128) -> Self {
        if is_due(self.elapsed_at(now)) {
            LoopStats::started_at(self.clock, now)
        } else {
            self.with_request(is_mgmt, response_time)
        }
    }

    /// Starts an interval, and the clock with it.
    pub fn new() -> (r: Self)
        ensures
            r == LoopStats::started_at(r.clock, 0),
            r.clock.latest() == 0,
            r.is_consistent(),
    {
        LoopStats {
            requests: 0,
            mgmt_requests: 0,
            inference_requests: 0,
            total_response_time: 0,
            max_response_time: 0,
            interval_started: 0,
            clock: Clock::start(),
        }
    }

    /// Counts a request at a time. Where the interval is due, gives its report and starts the
    /// next one.
    pub fn record_at(&mut self, is_mgmt: bool, response_time: u128, now: u128) -> (r: Option<
        StatsReport,
    >)
        requires
            old(self).has_room(response_time),
        ensures
            r == old(self).reported(is_mgmt, response_time, now),
            *final(self) == old(self).after_record(is_mgmt, response_time, now),
            old(self).is_consistent() ==> final(self).is_consistent(),
            final(self).clock == old(self).clock,
            r is Some <==> now - old(self).interval_started >= 60_000_000_000,
            r is Some ==> {
                &&& r->0.requests == old(self).requests + 1
                &&& r->0.mgmt_requests == old(self).mgmt_requests + if is_mgmt {
                    1int
                } else {
                    0
                }
                &&& r->0.inference_requests == old(self).inference_requests + if is_mgmt {
                    0int
                } else {
                    1
                }
                &&& r->0.total_response_time == old(self).total_response_time + response_time
                &&& r->0.max_response_time >= response_time
                &&& r->0.max_response_time >= old(self).max_response_time
                &&& r->0.max_response_time == response_time || r->0.max_response_time == old(
                    self,
                ).max_response_time
                &&& r->0.elapsed == now - old(self).interval_started
                &&& final(self).requests == 0
                &&& final(self).mgmt_requests == 0
                &&& final(self).inference_requests == 0
                &&& final(self).total_response_time == 0
                &&& final(self).max_response_time == 0
                &&& final(self).interval_started == now
            },
            r is None ==> {
                &&& final(self).requests == old(self).requests + 1
                &&& final(self).mgmt_requests == old(self).mgmt_requests + if is_mgmt {
                    1int
                } else {
                    0
                }
                &&& final(self).inference_requests == old(self).inference_requests + if is_mgmt {
                    0int
                } else {
                    1
                }
                &&& final(self).total_response_time == old(self).total_response_time
                    + response_time
                &&& final(self).max_response_time >= response_time
                &&& final(self).max_response_time >= old(self).max_response_time
                &&& final(self).max_response_time == response_time
                    || final(self).max_response_time == old(self).max_response_time
                &&& final(self).interval_started == old(self).interval_started
            },
    {
        self.requests = self.requests + 1;
        if is_mgmt {
            self.mgmt_requests = self.mgmt_requests + 1;
        } else {
            self.inference_requests = self.inference_requests + 1;
        }
        self.total_response_time = self.total_response_time + response_time;
        if self.max_response_time < response_time {
            self.max_response_time = response_time;
        }
        proof {
            lemma_record_keeps_consistency(*old(self), is_mgmt, response_time);
        }
        let elapsed: u128 = now.saturating_sub(self.interval_started);
        if elapsed < HEALTH_LOG_INTERVAL_SECS as u128 * NANOS_PER_SEC {
            return None;
        }
        let report: StatsReport = StatsReport {
            requests: self.requests,
            mgmt_requests: self.mgmt_requests,
            inference_requests: self.inference_requests,
            total_response_time: self.total_response_time,
            max_response_time: self.max_response_time,
            elapsed,
        };
        self.requests = 0;
        self.mgmt_requests = 0;
        self.inference_requests = 0;
        self.total_response_time = 0;
        self.max_response_time = 0;
        self.interval_started = now;
        Some(report)
    }

    /// Counts a request now. Where the interval is due, gives its report and starts the next
    /// one.
    pub fn record(&mut self, is_mgmt: bool, response_time: u128) -> (r: Option<StatsReport>)
        requires
            old(self).has_room(response_time),
        ensures
            old(self).clock.looked_at(final(self).clock),
            r == old(self).reported(is_mgmt, response_time, final(self).clock.latest()),
            *final(self) == old(self).with_clock(final(self).clock).after_record(
                is_mgmt,
                response_time,
                final(self).clock.latest(),
            ),
            old(self).is_consistent() ==> final(self).is_consistent(),
    {
        let now: u128 = self.clock.elapsed_nanos();
        self.record_at(is_mgmt, response_time, now)
    }
}

proof fn lemma_record_keeps_consistency(before: LoopStats, is_mgmt: bool, response_time: u128)
    requires
        before.has_room(response_time),
    ensures
        before.is_consistent() ==> before.with_request(is_mgmt, response_time).is_consistent(),
{
    if before.is_consistent() {
        let after = before.with_request(is_mgmt, response_time);
        let (n, m, t) = (
            before.requests as int,
            before.max_response_time as int,
            after.max_response_time as int,
        );
        assert(n * m + response_time <= (n + 1) * t) by (nonlinear_arith)
            requires
                n >= 0,
                0 <= m <= t,
                response_time <= t,
        ;
    }
}

/// A request that is counted: whether it is for model management, and how long the response
/// took.
pub struct CountedRequest {
    pub is_mgmt: bool,
    pub response_time: u128,
}

/// What requests come to.
pub struct Totals {
    pub requests: int,
    pub mgmt_requests: int,
    pub inference_requests: int,
    pub total_response_time: int,
    pub max_response_time: int,
}

impl Totals {
    /// What no request comes to.
    pub open spec fn none() -> Self {
        Totals {
            requests: 0,
            mgmt_requests: 0,
            inference_requests: 0,
            total_response_time: 0,
            max_response_time: 0,
        }
    }

    /// The totals with one more request.
    pub open spec fn with(self, request: CountedRequest) -> Self {
        Totals {
            requests: self.requests + 1,
            mgmt_requests: self.mgmt_requests + if request.is_mgmt {
                1int
            } else {
                0int
            },
            inference_requests: self.inference_requests + if request.is_mgmt {
                0int
            } else {
                1int
            },
            total_response_time: self.total_response_time + request.response_time,
            max_response_time: if self.max_response_time < request.response_time {
                request.response_time as int
            } else {
                self.max_response_time
            },
        }
    }

    /// What requests come to.
    pub open spec fn of(requests: Seq<CountedRequest>) -> Self {
        requests.fold_left(
            Totals::none(),
            |totals: Totals, request: CountedRequest| totals.with(request),
        )
    }
}

/// The statistics after requests were counted at times, the first of them first.
pub open spec fn after_records(
    stats: LoopStats,
    requests: Seq<CountedRequest>,
    times: Seq<u128>,
) -> LoopStats
    decreases requests.len(),
{
    if requests.len() == 0 {
        stats
    } else {
        after_records(stats, requests.drop_last(), times.drop_last()).after_record(
            requests.last().is_mgmt,
            requests.last().response_time,
            times.last(),
        )
    }
}

/// What requests come to, said of each number by itself: how many there are, how many are for
/// model management, how many are not, the sum of the times, and the longest time.
pub proof fn lemma_totals(requests: Seq<CountedRequest>)
    ensures
        Totals::of(requests).requests == requests.len(),
        Totals::of(requests).mgmt_requests == requests.filter(
            |request: CountedRequest| request.is_mgmt,
        ).len(),
        Totals::of(requests).inference_requests == requests.filter(
            |request: CountedRequest| !request.is_mgmt,
        ).len(),
        Totals::of(requests).total_response_time == requests.map_values(
            |request: CountedRequest| request.response_time as int,
        ).fold_left(0, |sum: int, time: int| sum + time),
        0 <= Totals::of(requests).max_response_time <= Totals::of(requests).total_response_time,
        forall|i: int|
            0 <= i < requests.len() ==> (#[trigger] requests[i]).response_time <= Totals::of(
                requests,
            ).max_response_time,
        requests.len() > 0 ==> exists|i: int|
            0 <= i < requests.len() && (#[trigger] requests[i]).response_time == Totals::of(
                requests,
            ).max_response_time,
        requests.len() == 0 ==> Totals::of(requests).max_response_time == 0,
    decreases requests.len(),
{
    reveal(Seq::filter);
    if requests.len() > 0 {
        let rest = requests.drop_last();
        let last = requests.last();
        lemma_totals(rest);
        let time = |request: CountedRequest| request.response_time as int;
        assert(requests.map_values(time).drop_last() =~= rest.map_values(time));
        assert forall|i: int| 0 <= i < requests.len() implies (
        #[trigger] requests[i]).response_time <= Totals::of(requests).max_response_time by {
            if i < rest.len() {
                assert(rest[i] == requests[i]);
            }
        }
        if Totals::of(rest).max_response_time < last.response_time || rest.len() == 0 {
            assert(requests[requests.len() - 1].response_time == Totals::of(
                requests,
            ).max_response_time);
        } else {
            let i = choose|i: int|
                0 <= i < rest.len() && (#[trigger] rest[i]).response_time == Totals::of(
                    rest,
                ).max_response_time;
            assert(requests[i] == rest[i]);
        }
    }
}

/// After requests that were counted before the report is due, the statistics are what the
/// requests come to, and the interval has started when it did.
pub proof fn lemma_statistics_add_up(
    stats: LoopStats,
    requests: Seq<CountedRequest>,
    times: Seq<u128>,
)
    requires
        stats == LoopStats::started_at(stats.clock, stats.interval_started),
        times.len() == requests.len() <= u64::MAX,
        Totals::of(requests).total_response_time <= MAX_SPAN_NANOS,
        forall|i: int| 0 <= i < times.len() ==> !is_due(stats.elapsed_at(#[trigger] times[i])),
    ensures
        after_records(stats, requests, times).requests == Totals::of(requests).requests,
        after_records(stats, requests, times).mgmt_requests == Totals::of(requests).mgmt_requests,
        after_records(stats, requests, times).inference_requests == Totals::of(
            requests,
        ).inference_requests,
        after_records(stats, requests, times).total_response_time == Totals::of(
            requests,
        ).total_response_time,
        after_records(stats, requests, times).max_response_time == Totals::of(
            requests,
        ).max_response_time,
        after_records(stats, requests, times).interval_started == stats.interval_started,
        after_records(stats, requests, times).clock == stats.clock,
    decreases requests.len(),
{
    if requests.len() > 0 {
        let rest = requests.drop_last();
        lemma_totals(requests);
        lemma_totals(rest);
        lemma_filters_fit(rest);
        assert forall|i: int| 0 <= i < times.drop_last().len() implies !is_due(
            stats.elapsed_at(#[trigger] times.drop_last()[i]),
        ) by {
            assert(times.drop_last()[i] == times[i]);
        }
        lemma_statistics_add_up(stats, rest, times.drop_last());
        assert(times.last() == times[times.len() - 1]);
    }
}

proof fn lemma_filters_fit(requests: Seq<CountedRequest>)
    ensures
        0 <= Totals::of(requests).mgmt_requests,
        0 <= Totals::of(requests).inference_requests,
        Totals::of(requests).mgmt_requests + Totals::of(requests).inference_requests
            == requests.len(),
    decreases requests.len(),
{
    if requests.len() > 0 {
        lemma_filters_fit(requests.drop_last());
    }
}

/// What requests come to does not depend on their order.
pub proof fn lemma_order_does_not_matter(one: Seq<CountedRequest>, other: Seq<CountedRequest>)
    requires
        one.to_multiset() == other.to_multiset(),
    ensures
        Totals::of(one) == Totals::of(other),
{
    let step = |totals: Totals, request: CountedRequest| totals.with(request);
    assert(commutative_foldl(step));
    lemma_fold_left_permutation(one, other, step, Totals::none());
}

/// A report is given with the first request that is counted at least sixty seconds after the
/// interval has started, however much later, and is about all requests of the interval with
/// that one. Then the next interval starts. Before that the request is counted and nothing is
/// reported.
pub proof fn lemma_report_once_a_minute(
    stats: LoopStats,
    is_mgmt: bool,
    response_time: u128,
    now: u128,
)
    requires
        stats.requests < u64::MAX,
        stats.mgmt_requests < u64::MAX,
        stats.inference_requests < u64::MAX,
        stats.total_response_time + response_time <= u128::MAX,
    ensures
        stats.reported(is_mgmt, response_time, now) is Some <==> now - stats.interval_started
            >= 60_000_000_000,
        stats.reported(is_mgmt, response_time, now) matches Some(report) ==> {
            let after = stats.after_record(is_mgmt, response_time, now);
            &&& report.requests == stats.requests + 1
            &&& is_mgmt ==> report.mgmt_requests == stats.mgmt_requests + 1
                && report.inference_requests == stats.inference_requests
            &&& !is_mgmt ==> report.mgmt_requests == stats.mgmt_requests
                && report.inference_requests == stats.inference_requests + 1
            &&& report.total_response_time == stats.total_response_time + response_time
            &&& report.max_response_time >= stats.max_response_time
            &&& report.max_response_time >= response_time
            &&& report.max_response_time == stats.max_response_time || report.max_response_time
                == response_time
            &&& report.elapsed == now - stats.interval_started
            &&& after.requests == 0
            &&& after.mgmt_requests == 0
            &&& after.inference_requests == 0
            &&& after.total_response_time == 0
            &&& after.max_response_time == 0
            &&& after.interval_started == now
            &&& after.clock == stats.clock
        },
        stats.reported(is_mgmt, response_time, now) is None ==> {
            let after = stats.after_record(is_mgmt, response_time, now);
            &&& after.requests == stats.requests + 1
            &&& is_mgmt ==> after.mgmt_requests == stats.mgmt_requests + 1
                && after.inference_requests == stats.inference_requests
            &&& !is_mgmt ==> after.mgmt_requests == stats.mgmt_requests
                && after.inference_requests == stats.inference_requests + 1
            &&& after.total_response_time == stats.total_response_time + response_time
            &&& after.max_response_time >= stats.max_response_time
            &&& after.max_response_time >= response_time
            &&& after.max_response_time == stats.max_response_time || after.max_response_time
                == response_time
            &&& after.interval_started == stats.interval_started
            &&& after.clock == stats.clock
        },
{
}

} // verus!
