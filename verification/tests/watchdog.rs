use frigate_zmq_detector::clock::Clock;
use frigate_zmq_detector::watchdog::{
    FireReason, HealthSnapshot, ProgressWatchdog, EXIT_CODE_NO_PROGRESS, EXIT_CODE_RECYCLE,
};
use std::time::{Duration, Instant};

fn new_watchdog(
    max_no_progress_secs: u64,
    max_requests: u64,
    max_lifetime_secs: u64,
) -> ProgressWatchdog {
    ProgressWatchdog::new(max_no_progress_secs, max_requests, max_lifetime_secs)
}

fn pause(span: Duration) {
    let start = Instant::now();
    while start.elapsed() < span {
        std::hint::spin_loop();
    }
}

#[test]
fn test_initial_state_is_clean() {
    let mut wd = new_watchdog(60, 0, 0);
    let snap = wd.snapshot();

    assert_eq!(snap.total_requests, 0);
    assert_eq!(snap.total_successes, 0);
    assert_eq!(snap.total_failures, 0);
    assert_eq!(snap.last_success_ms, 0);
    assert_eq!(snap.last_failure_ms, 0);
    assert_eq!(snap.first_request_ms, 0);
    assert_eq!(snap.in_flight_start_ms, 0);
}

#[test]
fn test_idle_no_traffic_does_not_fire() {
    let mut wd = new_watchdog(5, 0, 0);

    // Even after waiting, if no requests came, watchdog should not fire.
    pause(Duration::from_millis(100));
    let reason = wd.check();
    assert!(
        reason.is_none(),
        "watchdog should not fire when there is no traffic; got {reason:?}"
    );
}

#[test]
fn test_request_start_sets_in_flight() {
    let mut wd = new_watchdog(60, 0, 0);
    wd.request_start();

    let snap = wd.snapshot();
    assert_eq!(snap.total_requests, 1);
    assert!(
        snap.in_flight_start_ms > 0,
        "in_flight_start_ms should be > 0 after request_start"
    );
    assert!(
        snap.first_request_ms > 0,
        "first_request_ms should be > 0 after request_start"
    );
}

#[test]
fn test_response_ok_clears_in_flight() {
    let mut wd = new_watchdog(60, 0, 0);
    wd.request_start();
    wd.response_ok();

    let snap = wd.snapshot();
    assert_eq!(snap.total_requests, 1);
    assert_eq!(snap.total_successes, 1);
    assert_eq!(snap.in_flight_start_ms, 0, "in_flight should be cleared");
    assert!(snap.last_success_ms > 0, "last_success should be set");
}

#[test]
fn test_response_err_clears_in_flight() {
    let mut wd = new_watchdog(60, 0, 0);
    wd.request_start();
    wd.response_err();

    let snap = wd.snapshot();
    assert_eq!(snap.total_requests, 1);
    assert_eq!(snap.total_successes, 0);
    assert_eq!(snap.total_failures, 1);
    assert!(snap.last_failure_ms > 0, "last_failure should be set");
    assert_eq!(snap.in_flight_start_ms, 0, "in_flight should be cleared");
}

#[test]
fn test_multiple_requests_and_responses() {
    let mut wd = new_watchdog(60, 0, 0);

    for i in 0..5 {
        wd.request_start();
        if i % 2 == 0 {
            wd.response_ok();
        } else {
            wd.response_err();
        }
    }

    let snap = wd.snapshot();
    assert_eq!(snap.total_requests, 5);
    assert_eq!(snap.total_successes, 3); // indices 0, 2, 4
    assert_eq!(snap.total_failures, 2); // indices 1, 3
}

#[test]
fn test_no_progress_timeout_fires_on_stuck_in_flight() {
    let mut wd = new_watchdog(1, 0, 0); // 1 second timeout
    wd.request_start();
    // Don't complete the request.

    pause(Duration::from_secs(2));
    let reason = wd.check();
    assert!(
        reason.is_some(),
        "watchdog should fire on stuck in-flight request; got {reason:?}"
    );
}

#[test]
fn test_no_progress_timeout_fires_on_no_success() {
    // With a 1-second timeout, if requests come in but no success for 2s, fire.
    let mut wd = new_watchdog(1, 0, 0);

    // Simulate: request + failure, then wait past timeout.
    wd.request_start();
    wd.response_err();

    pause(Duration::from_secs(2));
    let reason = wd.check();
    assert!(
        reason.is_some(),
        "watchdog should fire after no success for longer than timeout; got {reason:?}"
    );
}

#[test]
fn test_no_success_waits_for_timeout() {
    let mut wd = new_watchdog(60, 0, 0);

    wd.request_start();
    wd.response_err();

    let reason = wd.check();
    assert!(
        reason.is_none(),
        "watchdog should wait for timeout before firing with no successes; got {reason:?}"
    );
}

#[test]
fn test_no_fire_when_success_recent() {
    let mut wd = new_watchdog(5, 0, 0);

    wd.request_start();
    wd.response_ok();

    // Within the timeout window, check should return None.
    let reason = wd.check();
    assert!(
        reason.is_none(),
        "watchdog should not fire when last success is recent; got {reason:?}"
    );
}

#[test]
fn test_idle_after_success_does_not_fire() {
    let mut wd = new_watchdog(1, 0, 0);

    wd.request_start();
    wd.response_ok();

    pause(Duration::from_secs(2));
    let reason = wd.check();
    assert!(
        reason.is_none(),
        "watchdog should not fire while idle after a success; got {reason:?}"
    );
}

#[test]
fn test_max_requests_recycling() {
    let mut wd = new_watchdog(0, 100, 0);

    for _ in 0..50 {
        wd.request_start();
        assert!(!wd.response_ok());
    }

    let snap = wd.snapshot();
    assert_eq!(snap.total_successes, 50);
    // max_requests=100, we've done 50 — no exit yet.
    let reason = wd.check();
    assert!(
        reason.is_none(),
        "should not fire when under max_requests; got {reason:?}"
    );
}

#[test]
fn test_health_snapshot_age_calculations() {
    let mut wd = new_watchdog(60, 0, 0);
    wd.request_start();
    pause(Duration::from_millis(100));
    wd.response_ok();

    let snap = wd.snapshot();
    // in_flight should be 0 since we completed.
    assert_eq!(snap.in_flight_start_ms, 0);
    assert!(snap.in_flight_age_ms() == 0);

    // last_success_age should be small (recent).
    assert!(
        snap.last_success_age_ms() < 500,
        "last success age should be < 500ms but got {}",
        snap.last_success_age_ms()
    );
}

#[test]
fn test_watchdog_check_is_idempotent() {
    // After one fire, subsequent checks should return None.
    let mut wd = new_watchdog(1, 0, 0);
    wd.request_start();
    pause(Duration::from_secs(2));

    let reason1 = wd.check();
    let reason2 = wd.check();

    assert!(
        reason1.is_some(),
        "first check should fire; got {reason1:?}"
    );
    assert!(
        reason2.is_none(),
        "second check should return None (idempotent); got {reason2:?}"
    );
}

#[test]
fn test_is_enabled() {
    let wd1 = new_watchdog(0, 0, 0);
    assert!(!wd1.is_enabled(), "all zeros should be disabled");

    let wd2 = new_watchdog(60, 0, 0);
    assert!(wd2.is_enabled(), "max_no_progress>0 should be enabled");

    let wd3 = new_watchdog(0, 100, 0);
    assert!(wd3.is_enabled(), "max_requests>0 should be enabled");

    let wd4 = new_watchdog(0, 0, 3600);
    assert!(wd4.is_enabled(), "max_lifetime>0 should be enabled");
}

#[test]
fn the_clock_advances() {
    let mut wd = new_watchdog(0, 0, 0);
    pause(Duration::from_millis(30));
    wd.request_start();
    let snap = wd.snapshot();
    assert!(snap.first_request_ms > 30 && snap.first_request_ms < 10_000);
    assert!(snap.now_ms >= 30);
    assert!(wd.clock.elapsed_nanos() >= 30_000_000);
}

#[test]
fn snapshots_are_in_order() {
    let mut wd = new_watchdog(60, 0, 0);
    wd.request_start();
    let mut earlier = wd.snapshot();
    for _ in 0..1_000 {
        let later = wd.snapshot();
        assert!(earlier.now_ms <= later.now_ms);
        assert!(later.in_flight_start_ms <= later.now_ms + 1);
        assert_eq!(later.first_request_ms, earlier.first_request_ms);
        earlier = later;
    }
}

#[test]
fn a_clock_does_not_go_back() {
    let mut clock = Clock::start();
    let mut earlier = clock.elapsed_nanos();
    for _ in 0..1_000 {
        let later = clock.elapsed_nanos();
        assert!(earlier <= later);
        earlier = later;
    }
    let mut copy = clock;
    assert!(copy.elapsed_nanos() >= earlier);
    assert!(u128::from(clock.elapsed_ms()) >= earlier / 1_000_000);
}

#[test]
fn stuck_request_fires_at_the_limit() {
    let mut wd = new_watchdog(60, 0, 0);
    wd.response_ok_at(0);
    wd.request_start_at(1_000);
    assert_eq!(wd.poll_at(61_000), None);
    assert_eq!(wd.poll_at(61_001), Some(FireReason::InFlightStuck));
    assert_eq!(wd.poll_at(61_001), None);
    assert_eq!(wd.poll_at(900_000), None);
}

#[test]
fn no_success_is_counted_from_the_first_request() {
    let mut wd = new_watchdog(60, 0, 0);
    for i in 0..60 {
        wd.request_start_at(1_000 * i);
        wd.response_err_at(1_000 * i + 500);
    }
    assert_eq!(wd.first_request_ms, 1);
    assert_eq!(wd.check_at(60_000), None);
    assert_eq!(wd.check_at(60_001), Some("no success timeout"));
}

#[test]
fn failure_after_success_counts_from_the_success() {
    let mut wd = new_watchdog(60, 0, 0);
    wd.request_start_at(0);
    wd.response_ok_at(10);
    wd.request_start_at(20);
    wd.response_err_at(30);
    assert_eq!(wd.poll_at(60_010), None);
    assert_eq!(wd.check_at(60_011), Some("failure timeout"));
}

#[test]
fn repeated_failures_do_not_put_the_moment_off() {
    let mut wd = new_watchdog(60, 0, 0);
    wd.request_start_at(0);
    wd.response_ok_at(10);
    for i in 1..=3 {
        wd.request_start_at(20_000 * i);
        wd.response_err_at(20_000 * i + 1);
    }
    assert_eq!(wd.poll_at(60_010), None);
    assert_eq!(wd.poll_at(60_011), Some(FireReason::FailureTimeout));
}

#[test]
fn continual_failure_after_a_success_fires() {
    let mut wd = new_watchdog(1, 0, 0);
    wd.request_start();
    wd.response_ok();
    for _ in 0..30 {
        pause(Duration::from_millis(100));
        wd.request_start();
        wd.response_err();
    }
    assert_eq!(wd.check(), Some("failure timeout"));
}

#[test]
fn a_failure_before_a_success_is_forgotten() {
    let mut wd = new_watchdog(1, 0, 0);
    wd.request_start_at(0);
    wd.response_err_at(100);
    wd.request_start_at(200);
    wd.response_ok_at(300);
    assert_eq!(wd.poll_at(3_600_000), None);
}

#[test]
fn zero_stamps_mean_not_yet() {
    let mut wd = new_watchdog(60, 0, 0);
    wd.poll_at(0);
    wd.request_start_at(0);
    wd.poll_at(0);
    assert_eq!((wd.first_request_ms, wd.in_flight_start_ms), (1, 1));
    assert_eq!((wd.last_success_ms, wd.last_failure_ms), (0, 0));
    wd.response_err_at(4);
    assert_eq!((wd.first_request_ms, wd.in_flight_start_ms), (1, 0));
    assert_eq!((wd.last_success_ms, wd.last_failure_ms), (0, 5));
    let first = wd.snapshot_at(6);
    wd.poll_at(7);
    let second = wd.snapshot_at(8);
    assert_eq!(second, HealthSnapshot { now_ms: 8, ..first });
}

#[test]
fn watchdogs_on_one_clock_count_from_its_start() {
    let clock = Clock::start();
    let mut one = ProgressWatchdog::on_clock(clock, 60, 0, 0);
    one.request_start();
    pause(Duration::from_millis(20));
    let earlier = one.snapshot();
    let mut other = ProgressWatchdog::on_clock(clock, 60, 0, 0);
    let later = other.snapshot();
    assert!(earlier.now_ms >= 20);
    assert!(later.now_ms >= earlier.now_ms);
    assert_eq!(later.total_requests, 0);
    assert_eq!(later.first_request_ms, 0);
}

#[test]
fn lifetime_ends_the_worker_cleanly() {
    let mut wd = new_watchdog(60, 0, 3600);
    assert_eq!(wd.poll_at(3_599_999), None);
    let reason = wd.poll_at(3_600_000);
    assert_eq!(reason, Some(FireReason::MaxLifetime));
    assert_eq!(FireReason::MaxLifetime.label(), "max_lifetime exceeded");
    assert_eq!(FireReason::MaxLifetime.exit_code(), EXIT_CODE_RECYCLE);
}

#[test]
fn no_progress_has_its_own_exit_code() {
    for reason in [
        FireReason::NoSuccess,
        FireReason::FailureTimeout,
        FireReason::InFlightStuck,
    ] {
        assert_eq!(reason.exit_code(), EXIT_CODE_NO_PROGRESS);
    }
    assert_eq!(EXIT_CODE_NO_PROGRESS, 70);
    assert_eq!(FireReason::InFlightStuck.label(), "in-flight stuck");
}

#[test]
fn recycled_with_the_success_that_reaches_the_limit() {
    let mut wd = new_watchdog(0, 2, 0);
    assert!(!wd.response_ok_at(1));
    wd.response_err_at(2);
    assert!(wd.response_ok_at(3));
    assert!(wd.response_ok_at(4));
}

#[test]
fn without_limits_nothing_fires() {
    let mut wd = new_watchdog(0, 0, 0);
    wd.request_start_at(0);
    assert_eq!(wd.poll_at(u64::MAX), None);
    assert!(!wd.response_ok_at(u64::MAX - 1));
}

#[test]
fn ages_of_a_snapshot() {
    let snap = HealthSnapshot {
        total_requests: 3,
        total_successes: 1,
        total_failures: 1,
        last_success_ms: 1_501,
        last_failure_ms: 0,
        first_request_ms: 1,
        in_flight_start_ms: 9_000,
        now_ms: 4_000,
    };
    assert_eq!(snap.last_success_age_ms(), 2_499);
    assert_eq!(snap.in_flight_age_ms(), 0);
}
