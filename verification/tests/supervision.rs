use frigate_zmq_detector::clock::MAX_SPAN_NANOS;
use frigate_zmq_detector::process_watchdog::{ProcessWatchdog, WatchdogAction, WatchdogState};
use frigate_zmq_detector::stats::{LoopStats, StatsReport};
use frigate_zmq_detector::supervisor::{choose_role, supervisor_enabled, Role, Supervisor};

const SEC: u128 = 1_000_000_000;

#[test]
fn supervision_is_on_unless_turned_off() {
    assert!(supervisor_enabled(None));
    for on in ["", "1", "true", "yes", "NO", "00", "false "] {
        assert!(supervisor_enabled(Some(on)), "{on:?}");
    }
    for off in ["0", "false", "False", "FALSE", "no", "No"] {
        assert!(!supervisor_enabled(Some(off)), "{off:?}");
    }
}

#[test]
fn role_of_the_process() {
    assert_eq!(choose_role(None, false), Role::Supervisor);
    assert_eq!(choose_role(None, true), Role::Worker);
    assert_eq!(choose_role(Some("0"), false), Role::Worker);
    assert_eq!(choose_role(Some("0"), true), Role::Worker);
}

#[test]
fn backoff_doubles_up_to_its_bound() {
    let mut supervisor = Supervisor::new();
    let waits: Vec<u64> = (0..8).map(|_| supervisor.worker_exited(SEC)).collect();
    assert_eq!(waits, vec![1, 2, 4, 8, 16, 30, 30, 30]);
}

#[test]
fn a_stable_run_resets_the_backoff() {
    let mut supervisor = Supervisor::new();
    for _ in 0..5 {
        supervisor.worker_exited(60 * SEC - 1);
    }
    assert_eq!(supervisor.worker_exited(60 * SEC), 1);
    assert_eq!(supervisor.worker_exited(0), 1);
    assert_eq!(supervisor.worker_exited(0), 2);
}

#[test]
fn a_watched_call_is_aborted_at_its_deadline() {
    let mut state = WatchdogState::new();
    assert!(matches!(
        state.next_action_at(5),
        WatchdogAction::WaitForChange
    ));
    let generation = state.arm_at("inference", 100, 1_000);
    assert_eq!(generation, 1);
    assert!(matches!(
        state.next_action_at(1_040),
        WatchdogAction::Wait(60)
    ));
    assert!(matches!(
        state.next_action_at(1_130),
        WatchdogAction::Abort {
            label: "inference",
            timeout: 100,
            elapsed: 130
        }
    ));
}

#[test]
fn a_late_disarm_leaves_the_next_call_alone() {
    let mut state = WatchdogState::new();
    let first = state.arm_at("first", 10, 0);
    let second = state.arm_at("second", 10, 5);
    assert!(!state.disarm(first));
    assert!(matches!(state.next_action_at(6), WatchdogAction::Wait(9)));
    assert!(state.disarm(second));
    assert!(!state.disarm(second));
    assert!(matches!(
        state.next_action_at(1_000),
        WatchdogAction::WaitForChange
    ));
}

#[test]
fn generations_wrap() {
    let mut state = WatchdogState::new();
    state.generation = u64::MAX;
    assert_eq!(state.arm_at("call", 1, 0), 0);
}

#[test]
fn the_process_watchdog_uses_its_clock() {
    let mut watchdog = ProcessWatchdog::new();
    assert!(matches!(
        watchdog.next_action(),
        WatchdogAction::WaitForChange
    ));
    assert_eq!(watchdog.arm("inference", 0), None);
    let generation = watchdog.arm("inference", 3_600 * SEC).unwrap();
    assert_eq!(generation, 1);
    match watchdog.next_action() {
        WatchdogAction::Wait(left) => assert!(left <= 3_600 * SEC && left > 3_500 * SEC),
        _ => panic!("a call within its time is waited for"),
    }
    assert!(watchdog.disarm(generation));
    let generation = watchdog.arm("warmup inference", 1).unwrap();
    assert_eq!(generation, 2);
    let start = std::time::Instant::now();
    while start.elapsed().as_nanos() < 1_000 {}
    assert!(matches!(
        watchdog.next_action(),
        WatchdogAction::Abort {
            label: "warmup inference",
            timeout: 1,
            ..
        }
    ));
    assert_eq!(
        MAX_SPAN_NANOS,
        std::time::Duration::new(u64::MAX, 999_999_999).as_nanos()
    );
}

#[test]
fn statistics_are_reported_once_a_minute() {
    let mut stats = LoopStats::new();
    assert_eq!(stats.record_at(false, 5_000_000, SEC), None);
    assert_eq!(stats.record_at(true, 1_000_000, 60 * SEC - 1), None);
    assert_eq!(
        stats.record_at(false, 9_000_000, 60 * SEC),
        Some(StatsReport {
            requests: 3,
            mgmt_requests: 1,
            inference_requests: 2,
            total_response_time: 15_000_000,
            max_response_time: 9_000_000,
            elapsed: 60 * SEC,
        })
    );
    assert_eq!(stats.requests, 0);
    assert_eq!(stats.total_response_time, 0);
    assert_eq!(stats.max_response_time, 0);
    assert_eq!(stats.interval_started, 60 * SEC);
}

#[test]
fn the_next_interval_starts_at_the_report() {
    let mut stats = LoopStats::new();
    assert_eq!(stats.interval_started, 0);
    assert!(stats.record_at(false, 1, 75 * SEC).is_some());
    assert_eq!(stats.record_at(true, 2, 75 * SEC), None);
    assert_eq!(stats.record_at(true, 3, 135 * SEC - 1), None);
    let report = stats.record_at(false, 4, 135 * SEC).unwrap();
    assert_eq!(report.elapsed, 60 * SEC);
    assert_eq!(report.requests, 3);
    assert_eq!(report.total_response_time, 9);
}

#[test]
fn statistics_do_not_depend_on_the_order() {
    let requests = [(true, 5), (false, 9), (false, 2), (true, 7)];
    let mut forward = LoopStats::new();
    for (is_mgmt, time) in requests {
        assert_eq!(forward.record_at(is_mgmt, time, SEC), None);
    }
    let mut backward = LoopStats::new();
    for (is_mgmt, time) in requests.into_iter().rev() {
        assert_eq!(backward.record_at(is_mgmt, time, SEC), None);
    }
    for stats in [forward, backward] {
        assert_eq!(stats.requests, 4);
        assert_eq!(stats.mgmt_requests, 2);
        assert_eq!(stats.inference_requests, 2);
        assert_eq!(stats.total_response_time, 23);
        assert_eq!(stats.max_response_time, 9);
        assert_eq!(stats.interval_started, 0);
    }
}

#[test]
fn statistics_are_counted_on_their_clock() {
    let mut stats = LoopStats::new();
    assert_eq!(stats.record(true, 7), None);
    assert_eq!(stats.mgmt_requests, 1);
    assert_eq!(stats.inference_requests, 0);
    assert_eq!(stats.total_response_time, 7);
}
