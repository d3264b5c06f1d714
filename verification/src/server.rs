//! Decisions of the reply loop, of the watchdog monitor and of the warmup.

use crate::backend::{error_of, BackendCall, BackendState, DetectorBackend};
use crate::clock::Clock;
use crate::error::{Result, SidecarError};
use crate::message::message_frames;
use crate::protocol::{classify_message, is_management};
use crate::stats::{LoopStats, StatsReport};
use crate::watchdog::{
    age_ms, FireReason, HealthSnapshot, ProgressWatchdog, EXIT_CODE_RECYCLE,
};
use vstd::prelude::*;
use zeromq::ZmqMessage;

verus! {

/// Seconds between two looks of the monitor at the watchdog.
pub const WATCHDOG_CHECK_INTERVAL_SECS: u64 = 5;

/// The longest wait after a receive error, in milliseconds.
pub const MAX_RECV_BACKOFF_MS: u64 = 2000;

/// What to do after a receive error.
#[derive(Clone, Copy, Debug, PartialEq, Eq, Structural)]
pub struct RecvErrorPlan {
    /// Receive errors in a row, with this one.
    pub consecutive: u32,
    /// Whether to log the error.
    pub log: bool,
    /// How long to wait before the next receive, in milliseconds.
    pub backoff_ms: Option<u64>,
}

/// What to do after that many receive errors in a row: the first three and every tenth are
/// logged; from the third on there is a wait of as many milliseconds as there were errors, up
/// to a bound.
pub open spec fn recv_error_plan(consecutive: u32) -> RecvErrorPlan {
    RecvErrorPlan {
        consecutive,
        log: consecutive <= 3 || consecutive % 10 == 0,
        backoff_ms: if consecutive > 2 {
            Some(
                if consecutive < MAX_RECV_BACKOFF_MS {
                    consecutive as u64
                } else {
                    MAX_RECV_BACKOFF_MS
                },
            )
        } else {
            None
        },
    }
}

/// What to do once a reply was sent, or could not be.
#[derive(Clone, Copy, Debug, PartialEq, Eq, Structural)]
pub enum Finished {
    /// Exit with that code, to be recycled.
    Exit(i32),
    /// Go on, and report the statistics where they are due.
    Continue(Option<StatsReport>),
}

/// The reply loop between two steps.
pub struct ReplyLoop {
    /// Receive errors in a row.
    pub consecutive_recv_errors: u32,
    /// Statistics of the interval.
    pub stats: LoopStats,
}

/// The watchdog after a message has come.
pub open spec fn health_after_message(
    health: ProgressWatchdog,
    is_mgmt: bool,
    now_ms: u64,
) -> ProgressWatchdog {
    if is_mgmt {
        health
    } else {
        health.after_request_start(now_ms)
    }
}

/// The watchdog after the reply was sent, or could not be.
pub open spec fn health_after_reply(
    health: ProgressWatchdog,
    is_mgmt: bool,
    sent: bool,
    now_ms: u64,
) -> ProgressWatchdog {
    if is_mgmt {
        health
    } else if sent {
        health.after_response_ok(now_ms)
    } else {
        health.after_response_err(now_ms)
    }
}

impl ReplyLoop {
    /// A loop that has seen nothing.
    pub fn new() -> (r: Self)
        ensures
            r.consecutive_recv_errors == 0,
            r.stats == LoopStats::started_at(r.stats.clock, 0),
            r.stats.clock.latest() == 0,
    {
        ReplyLoop { consecutive_recv_errors: 0, stats: LoopStats::new() }
    }

    /// A receive failed.
    pub fn recv_failed(&mut self) -> (r: RecvErrorPlan)
        requires
            old(self).consecutive_recv_errors < u32::MAX,
        ensures
            final(self).consecutive_recv_errors == old(self).consecutive_recv_errors + 1,
            final(self).stats == old(self).stats,
            r == recv_error_plan(final(self).consecutive_recv_errors),
    {
        self.consecutive_recv_errors = self.consecutive_recv_errors + 1;
        let consecutive: u32 = self.consecutive_recv_errors;
        RecvErrorPlan {
            consecutive,
            log: consecutive <= 3 || consecutive % 10 == 0,
            backoff_ms: if consecutive > 2 {
                Some(
                    if (consecutive as u64) < MAX_RECV_BACKOFF_MS {
                        consecutive as u64
                    } else {
                        MAX_RECV_BACKOFF_MS
                    },
                )
            } else {
                None
            },
        }
    }

    /// A message came at a time: ends the row of receive errors and tells the watchdog of an
    /// inference request. Says whether the message is for model management.
    pub fn received_at(
        &mut self,
        msg: &ZmqMessage,
        health: &mut ProgressWatchdog,
        now_ms: u64,
    ) -> (is_mgmt: bool)
        ensures
            is_mgmt == is_management(message_frames(*msg)),
            final(self).consecutive_recv_errors == 0,
            final(self).stats == old(self).stats,
            *final(health) == health_after_message(*old(health), is_mgmt, now_ms),
    {
        self.consecutive_recv_errors = 0;
        let is_mgmt: bool = classify_message(msg);
        if !is_mgmt {
            health.request_start_at(now_ms);
        }
        is_mgmt
    }

    /// A message came.
    pub fn received(&mut self, msg: &ZmqMessage, health: &mut ProgressWatchdog) -> (is_mgmt: bool)
        ensures
            is_mgmt == is_management(message_frames(*msg)),
            final(self).consecutive_recv_errors == 0,
            final(self).stats == old(self).stats,
            old(health).clock.looked_at(final(health).clock),
            *final(health) == health_after_message(
                old(health).with_clock(final(health).clock),
                is_mgmt,
                final(health).clock.latest_ms(),
            ),
    {
        let now_ms: u64 = health.clock.elapsed_ms();
        self.received_at(msg, health, now_ms)
    }

    /// The loop with the clock of its statistics after a look at it.
    pub open spec fn with_clock(self, clock: Clock) -> Self {
        ReplyLoop { stats: self.stats.with_clock(clock), ..self }
    }

    /// What to do once a reply was sent, or could not be, at a time on the clock of the
    /// statistics, given the watchdog after it.
    pub open spec fn finished(
        self,
        is_mgmt: bool,
        sent: bool,
        response_time: u128,
        health: ProgressWatchdog,
        now: u128,
    ) -> Finished {
        if !is_mgmt && sent && health.recycle_due() {
            Finished::Exit(EXIT_CODE_RECYCLE)
        } else {
            Finished::Continue(self.stats.reported(is_mgmt, response_time, now))
        }
    }

    /// The loop after a reply was sent, or could not be, given the watchdog after it: the
    /// request is counted unless the process is to exit.
    pub open spec fn after_reply(
        self,
        is_mgmt: bool,
        sent: bool,
        response_time: u128,
        health: ProgressWatchdog,
        now: u128,
    ) -> Self {
        if !is_mgmt && sent && health.recycle_due() {
            self
        } else {
            ReplyLoop { stats: self.stats.after_record(is_mgmt, response_time, now), ..self }
        }
    }

    /// The reply was sent, or could not be, at a time: tells the watchdog of an inference
    /// request how it ended and counts the request. The time is given on the clock of the
    /// watchdog in milliseconds and on that of the statistics in nanoseconds.
    pub fn replied_at(
        &mut self,
        is_mgmt: bool,
        sent: bool,
        response_time: u128,
        health: &mut ProgressWatchdog,
        now_ms: u64,
        now: u128,
    ) -> (r: Finished)
        requires
            old(self).stats.has_room(response_time),
        ensures
            *final(health) == health_after_reply(*old(health), is_mgmt, sent, now_ms),
            r == old(self).finished(is_mgmt, sent, response_time, *final(health), now),
            *final(self) == old(self).after_reply(
                is_mgmt,
                sent,
                response_time,
                *final(health),
                now,
            ),
            final(self).consecutive_recv_errors == old(self).consecutive_recv_errors,
            old(self).stats.is_consistent() ==> final(self).stats.is_consistent(),
    {
        if !is_mgmt {
            if sent {
                if health.response_ok_at(now_ms) {
                    return Finished::Exit(EXIT_CODE_RECYCLE);
                }
            } else {
                health.response_err_at(now_ms);
            }
        }
        Finished::Continue(self.stats.record_at(is_mgmt, response_time, now))
    }

    /// The reply was sent, or could not be.
    pub fn replied(
        &mut self,
        is_mgmt: bool,
        sent: bool,
        response_time: u128,
        health: &mut ProgressWatchdog,
    ) -> (r: Finished)
        requires
            old(self).stats.has_room(response_time),
        ensures
            old(health).clock.looked_at(final(health).clock),
            *final(health) == health_after_reply(
                old(health).with_clock(final(health).clock),
                is_mgmt,
                sent,
                final(health).clock.latest_ms(),
            ),
            old(self).stats.clock.looked_at(final(self).stats.clock),
            r == old(self).finished(
                is_mgmt,
                sent,
                response_time,
                *final(health),
                final(self).stats.clock.latest(),
            ),
            *final(self) == old(self).with_clock(final(self).stats.clock).after_reply(
                is_mgmt,
                sent,
                response_time,
                *final(health),
                final(self).stats.clock.latest(),
            ),
            old(self).stats.is_consistent() ==> final(self).stats.is_consistent(),
    {
        let now_ms: u64 = health.clock.elapsed_ms();
        let now: u128 = self.stats.clock.elapsed_nanos();
        self.replied_at(is_mgmt, sent, response_time, health, now_ms, now)
    }
}

/// What the monitor logs of the health state.
#[derive(Clone, Copy, Debug, PartialEq, Eq, Structural)]
pub enum HealthReport {
    /// No inference request has come for so long.
    Idle { uptime_ms: u64 },
    /// Inference requests have come.
    Active { requests: u64, successes: u64, failures: u64, last_success_age_ms: u64 },
}

/// What the monitor logs of a health state.
pub fn health_report(snapshot: &HealthSnapshot) -> (r: HealthReport)
    ensures
        r == if snapshot.total_requests > 0 {
            HealthReport::Active {
                requests: snapshot.total_requests,
                successes: snapshot.total_successes,
                failures: snapshot.total_failures,
                last_success_age_ms: if snapshot.last_success_ms == 0 {
                    0
                } else {
                    age_ms(snapshot.now_ms, snapshot.last_success_ms) as u64
                },
            }
        } else {
            HealthReport::Idle { uptime_ms: snapshot.now_ms }
        },
        r matches HealthReport::Active { last_success_age_ms, .. } ==> {
            &&& 0 < snapshot.last_success_ms < snapshot.now_ms ==> last_success_age_ms
                == snapshot.now_ms - snapshot.last_success_ms
            &&& snapshot.last_success_ms == 0 || snapshot.now_ms <= snapshot.last_success_ms
                ==> last_success_age_ms == 0
        },
{
    if snapshot.total_requests > 0 {
        HealthReport::Active {
            requests: snapshot.total_requests,
            successes: snapshot.total_successes,
            failures: snapshot.total_failures,
            last_success_age_ms: snapshot.last_success_age_ms(),
        }
    } else {
        HealthReport::Idle { uptime_ms: snapshot.now_ms }
    }
}

/// The look of the monitor at the watchdog at a time: none where no limit is set.
pub fn monitor_tick_at(health: &mut ProgressWatchdog, now_ms: u64) -> (r: Option<FireReason>)
    ensures
        r == old(health).look(now_ms),
        *final(health) == old(health).after_look(now_ms),
{
    if health.is_enabled() {
        health.poll_at(now_ms)
    } else {
        None
    }
}

/// The look of the monitor at the watchdog.
pub fn monitor_tick(health: &mut ProgressWatchdog) -> (r: Option<FireReason>)
    ensures
        old(health).clock.looked_at(final(health).clock),
        r == old(health).look(final(health).clock.latest_ms()),
        *final(health) == old(health).with_clock(final(health).clock).after_look(
            final(health).clock.latest_ms(),
        ),
{
    let now_ms: u64 = health.clock.elapsed_ms();
    monitor_tick_at(health, now_ms)
}

/// How the warmup went.
#[derive(Debug)]
pub struct Warmup {
    /// Runs that were completed.
    pub completed: u32,
    /// The error of the run that failed, after which there are no more.
    pub error: Option<SidecarError>,
}

/// The calls of a warmup: those that were completed, and the one that failed.
pub open spec fn warmup_calls(warmup: Warmup) -> Seq<BackendCall> {
    let completed = Seq::new(warmup.completed as nat, |i: int| BackendCall::Warmup { error: None });
    if warmup.error is Some {
        completed.push(BackendCall::Warmup { error: warmup.error })
    } else {
        completed
    }
}

/// Whether calls lead from each of the backends to the next.
pub open spec fn is_path<B: DetectorBackend>(backends: Seq<B>, calls: Seq<BackendCall>) -> bool {
    &&& backends.len() == calls.len() + 1
    &&& forall|i: int|
        0 <= i < calls.len() ==> (#[trigger] backends[i]).leads_to(&backends[i + 1], calls[i])
}

/// Runs warmup inferences where a model is ready, until one fails.
pub fn warm_up<B: DetectorBackend>(backend: &mut B, runs: u32) -> (r: Warmup)
    ensures
        old(backend).state().model is None || runs == 0 ==> r.completed == 0 && r.error is None
            && *final(backend) == *old(backend),
        old(backend).state().model is Some ==> r.completed <= runs,
        old(backend).state().model is Some ==> (r.error is Some <==> r.completed < runs),
        final(backend).state() == (BackendState {
            calls: old(backend).state().calls + warmup_calls(r),
            ..old(backend).state()
        }),
        exists|backends: Seq<B>| #[trigger]
            is_path(backends, warmup_calls(r)) && backends.first() == *old(backend)
                && backends.last() == *final(backend),
{
    let mut completed: u32 = 0;
    let mut error: Option<SidecarError> = None;
    let ghost before = backend.state();
    let ghost mut backends = seq![*backend];
    proof {
        let calls = warmup_calls(Warmup { completed, error });
        assert(before.calls + calls =~= before.calls);
        assert(is_path(backends, calls));
    }
    if !backend.is_ready() || runs == 0 {
        return Warmup { completed, error };
    }
    while completed < runs && error.is_none()
        invariant
            completed <= runs,
            error is Some ==> completed < runs,
            before == old(backend).state(),
            backend.state() == (BackendState {
                calls: before.calls + warmup_calls(Warmup { completed, error }),
                ..before
            }),
            is_path(backends, warmup_calls(Warmup { completed, error })),
            backends.first() == *old(backend),
            backends.last() == *backend,
        decreases runs - completed, if error is Some {
            0int
        } else {
            1int
        },
    {
        let ghost so_far = warmup_calls(Warmup { completed, error });
        let ghost earlier = backends;
        let outcome: Result<()> = backend.warmup();
        let ghost call = BackendCall::Warmup { error: error_of(outcome) };
        match outcome {
            Ok(()) => {
                completed += 1;
            },
            Err(cause) => {
                error = Some(cause);
            },
        }
        proof {
            let now = warmup_calls(Warmup { completed, error });
            assert(now =~= so_far.push(call));
            assert(before.calls + now =~= (before.calls + so_far).push(call));
            backends = earlier.push(*backend);
            assert forall|i: int| 0 <= i < now.len() implies (#[trigger] backends[i]).leads_to(
                &backends[i + 1],
                now[i],
            ) by {
                if i < so_far.len() {
                    assert(earlier[i].leads_to(&earlier[i + 1], so_far[i]));
                }
            }
        }
    }
    Warmup { completed, error }
}

/// Whether every inference request so far was answered, with success or with failure.
pub open spec fn all_answered(health: ProgressWatchdog) -> bool {
    health.total_requests == health.total_successes + health.total_failures
        && health.in_flight_start_ms == 0
}

/// Every inference request is answered once: a message and its reply count one request and
/// one success or failure, and leave no request in flight. A model-management message
/// changes nothing.
pub proof fn lemma_every_request_is_answered_once(
    health: ProgressWatchdog,
    is_mgmt: bool,
    sent: bool,
    received_ms: u64,
    replied_ms: u64,
)
    requires
        all_answered(health),
        health.total_requests < u64::MAX,
    ensures
        all_answered(
            health_after_reply(
                health_after_message(health, is_mgmt, received_ms),
                is_mgmt,
                sent,
                replied_ms,
            ),
        ),
        is_mgmt ==> health_after_reply(
            health_after_message(health, is_mgmt, received_ms),
            is_mgmt,
            sent,
            replied_ms,
        ) == health,
{
}

/// The waits after receive errors in a row never get shorter, and never exceed the bound.
pub proof fn lemma_recv_backoff_grows(earlier: u32, later: u32)
    requires
        earlier <= later,
    ensures
        recv_error_plan(earlier).backoff_ms matches Some(wait) ==> (recv_error_plan(
            later,
        ).backoff_ms matches Some(longer) && wait <= longer <= MAX_RECV_BACKOFF_MS),
{
}

/// After the first two receive errors in a row there is no wait; after each later one there is
/// one of as many milliseconds as there were errors, but not more than two seconds. The first
/// three errors are logged, and of the others those whose number ends in a zero.
pub proof fn lemma_receive_errors(consecutive: u32)
    ensures
        recv_error_plan(consecutive).consecutive == consecutive,
        consecutive <= 2 ==> recv_error_plan(consecutive).backoff_ms is None,
        2 < consecutive <= 2000 ==> recv_error_plan(consecutive).backoff_ms == Some(
            consecutive as u64,
        ),
        consecutive > 2000 ==> recv_error_plan(consecutive).backoff_ms == Some(2000u64),
        consecutive <= 3 ==> recv_error_plan(consecutive).log,
        consecutive > 3 ==> (recv_error_plan(consecutive).log <==> consecutive % 10 == 0),
{
}

/// A message for model management leaves the watchdog alone. Any other is counted as one
/// request and, with its reply, as one success where the reply was sent and as one failure
/// where it was not; its time is that of the message, and the time of its success or failure
/// that of the reply.
pub proof fn lemma_message_and_reply_are_counted(
    health: ProgressWatchdog,
    is_mgmt: bool,
    sent: bool,
    received_ms: u64,
    replied_ms: u64,
)
    requires
        health.total_requests < u64::MAX,
        health.total_successes < u64::MAX,
        health.total_failures < u64::MAX,
        received_ms < u64::MAX,
        replied_ms < u64::MAX,
    ensures
        ({
            let during = health_after_message(health, is_mgmt, received_ms);
            let after = health_after_reply(during, is_mgmt, sent, replied_ms);
            if is_mgmt {
                during == health && after == health
            } else {
                &&& during.in_flight_start_ms == received_ms + 1
                &&& during.total_requests == health.total_requests + 1
                &&& during.total_successes == health.total_successes
                &&& during.total_failures == health.total_failures
                &&& after.in_flight_start_ms == 0
                &&& after.total_requests == health.total_requests + 1
                &&& sent ==> {
                    &&& after.total_successes == health.total_successes + 1
                    &&& after.total_failures == health.total_failures
                    &&& after.last_success_ms == replied_ms + 1
                    &&& after.last_failure_ms == health.last_failure_ms
                }
                &&& !sent ==> {
                    &&& after.total_successes == health.total_successes
                    &&& after.total_failures == health.total_failures + 1
                    &&& after.last_success_ms == health.last_success_ms
                    &&& after.last_failure_ms == replied_ms + 1
                }
            }
        }),
{
}

/// The process exits with code zero exactly where a reply to an inference request was sent and
/// the successes have reached a limit that is set. Else the request is counted.
pub proof fn lemma_exit_at_the_request_limit(
    server: ReplyLoop,
    is_mgmt: bool,
    sent: bool,
    response_time: u128,
    health: ProgressWatchdog,
    now: u128,
)
    ensures
        !is_mgmt && sent && 0 < health.max_requests <= health.total_successes ==> server.finished(
            is_mgmt,
            sent,
            response_time,
            health,
            now,
        ) == Finished::Exit(0) && server.after_reply(is_mgmt, sent, response_time, health, now)
            == server,
        is_mgmt || !sent || health.max_requests == 0 || health.total_successes
            < health.max_requests ==> server.finished(is_mgmt, sent, response_time, health, now)
            == Finished::Continue(server.stats.reported(is_mgmt, response_time, now))
            && server.after_reply(is_mgmt, sent, response_time, health, now).stats
            == server.stats.after_record(is_mgmt, response_time, now),
{
}

/// The calls of a warmup are as many as were completed, all without an error, and then the one
/// that failed, if any, with its error.
pub proof fn lemma_calls_of_a_warmup(warmup: Warmup, i: int)
    ensures
        warmup.error is None ==> warmup_calls(warmup).len() == warmup.completed,
        warmup.error is Some ==> warmup_calls(warmup).len() == warmup.completed + 1,
        0 <= i < warmup.completed ==> (warmup_calls(warmup)[i] matches BackendCall::Warmup {
            error,
        } && error is None),
        warmup.error is Some ==> (warmup_calls(warmup)[warmup.completed as int] matches
            BackendCall::Warmup { error } && error == warmup.error),
{
}

} // verus!
