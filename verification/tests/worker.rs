use edgefirst_tflite::Library;
use frigate_zmq_detector::backend::{BackendCall, BackendState, DetectorBackend};
use frigate_zmq_detector::cli::{timeout_if_set, BackendKind, Cli};
use frigate_zmq_detector::error::{Result, SidecarError};
use frigate_zmq_detector::server::{
    health_report, monitor_tick, monitor_tick_at, warm_up, Finished, HealthReport, RecvErrorPlan,
    ReplyLoop,
};
use frigate_zmq_detector::text::decimal_text;
use frigate_zmq_detector::tflite::{check_input_size, found_functions, TfliteManager};
use frigate_zmq_detector::watchdog::{FireReason, ProgressWatchdog, EXIT_CODE_RECYCLE};
use zeromq::ZmqMessage;

const SEC: u128 = 1_000_000_000;

struct Warm {
    ready: bool,
    good_runs: u32,
    runs: u32,
}

impl DetectorBackend for Warm {
    fn state(&self) -> BackendState {
        unreachable!()
    }

    fn leads_to(&self, _after: &Self, _call: BackendCall) -> bool {
        unreachable!()
    }

    fn is_ready(&self) -> bool {
        self.ready
    }

    fn model_name(&self) -> Option<&str> {
        None
    }

    fn is_model_ready(&self, _model_name: &str) -> bool {
        false
    }

    fn cache_model(&mut self, _data: Vec<u8>, _model_name: Option<String>) -> Result<()> {
        Err(SidecarError::Io("read only".to_string()))
    }

    fn run(&mut self, _input_bytes: &[u8]) -> Result<Vec<u8>> {
        Err(SidecarError::ModelNotLoaded)
    }

    fn warmup(&mut self) -> Result<()> {
        self.runs += 1;
        if self.runs <= self.good_runs {
            Ok(())
        } else {
            Err(SidecarError::Tflite("warmup".to_string()))
        }
    }
}

fn warm(ready: bool, good_runs: u32) -> Warm {
    Warm {
        ready,
        good_runs,
        runs: 0,
    }
}

fn inference() -> ZmqMessage {
    let mut msg = ZmqMessage::from(b"{\"shape\":[1]}".to_vec());
    msg.push_back(vec![1u8].into());
    msg
}

fn question() -> ZmqMessage {
    ZmqMessage::from(b"{\"model_request\": true}".to_vec())
}

// A shared library that is not TensorFlow Lite.
fn other_library() -> &'static Library {
    Box::leak(Box::new(Library::from_path("libc.so.6").unwrap()))
}

#[test]
fn warmup_stops_at_the_first_failure() {
    let mut backend = warm(true, 2);
    let warmup = warm_up(&mut backend, 5);
    assert_eq!(warmup.completed, 2);
    assert_eq!(warmup.error.unwrap().message(), "TFLite error: warmup");
    assert_eq!(backend.runs, 3);
}

#[test]
fn warmup_runs_as_often_as_asked() {
    let mut backend = warm(true, 10);
    let warmup = warm_up(&mut backend, 3);
    assert_eq!(warmup.completed, 3);
    assert!(warmup.error.is_none());
    assert_eq!(backend.runs, 3);
}

#[test]
fn warmup_needs_a_model() {
    for (ready, runs) in [(false, 3), (true, 0)] {
        let mut backend = warm(ready, 10);
        let warmup = warm_up(&mut backend, runs);
        assert_eq!(warmup.completed, 0);
        assert!(warmup.error.is_none());
        assert_eq!(backend.runs, 0);
    }
}

#[test]
fn receive_errors_are_logged_sparsely_and_back_off() {
    let mut server = ReplyLoop::new();
    let plans: Vec<RecvErrorPlan> = (0..3000).map(|_| server.recv_failed()).collect();
    let logged: Vec<u32> = plans
        .iter()
        .filter(|p| p.log)
        .map(|p| p.consecutive)
        .take(6)
        .collect();
    assert_eq!(logged, vec![1, 2, 3, 10, 20, 30]);
    assert_eq!(plans[1].backoff_ms, None);
    assert_eq!(plans[2].backoff_ms, Some(3));
    assert_eq!(plans[1998].backoff_ms, Some(1999));
    assert_eq!(plans[1999].backoff_ms, Some(2000));
    assert_eq!(plans[2999].backoff_ms, Some(2000));
}

#[test]
fn a_message_ends_the_row_of_receive_errors() {
    let mut server = ReplyLoop::new();
    let mut health = ProgressWatchdog::new(60, 0, 0);
    server.recv_failed();
    server.recv_failed();
    assert!(server.received_at(&question(), &mut health, 5));
    assert_eq!(server.recv_failed().consecutive, 1);
}

#[test]
fn every_request_is_answered_once() {
    let mut server = ReplyLoop::new();
    let mut health = ProgressWatchdog::new(60, 0, 0);
    for (i, sent) in [true, false, true].into_iter().enumerate() {
        let now = 100 * i as u64;
        assert!(!server.received_at(&inference(), &mut health, now));
        assert_eq!(health.in_flight_start_ms, now + 1);
        let done = server.replied_at(false, sent, 7, &mut health, now + 50, SEC);
        assert_eq!(done, Finished::Continue(None));
        assert_eq!(health.in_flight_start_ms, 0);
    }
    assert_eq!(health.total_requests, 3);
    assert_eq!(health.total_successes, 2);
    assert_eq!(health.total_failures, 1);
    assert_eq!(server.stats.inference_requests, 3);
    assert_eq!(server.stats.total_response_time, 21);
}

#[test]
fn management_is_not_tracked() {
    let mut server = ReplyLoop::new();
    let mut health = ProgressWatchdog::new(60, 1, 0);
    assert!(server.received(&question(), &mut health));
    assert_eq!(
        server.replied(true, true, 9, &mut health),
        Finished::Continue(None)
    );
    assert_eq!(health.total_requests, 0);
    assert_eq!(health.total_successes, 0);
    assert_eq!(server.stats.mgmt_requests, 1);
}

#[test]
fn the_loop_ends_at_the_request_limit() {
    let mut server = ReplyLoop::new();
    let mut health = ProgressWatchdog::new(0, 2, 0);
    assert!(!server.received(&inference(), &mut health));
    assert_eq!(
        server.replied(false, true, 1, &mut health),
        Finished::Continue(None)
    );
    assert!(!server.received(&inference(), &mut health));
    assert_eq!(
        server.replied(false, true, 1, &mut health),
        Finished::Exit(EXIT_CODE_RECYCLE)
    );
    assert_eq!(server.stats.requests, 1);
}

#[test]
fn statistics_come_with_the_reply() {
    let mut server = ReplyLoop::new();
    let mut health = ProgressWatchdog::new(0, 0, 0);
    server.received_at(&inference(), &mut health, 0);
    match server.replied_at(false, true, 3, &mut health, 1, 61 * SEC) {
        Finished::Continue(Some(report)) => {
            assert_eq!(report.requests, 1);
            assert_eq!(report.elapsed, 61 * SEC);
        }
        other => panic!("the report is due, got {other:?}"),
    }
}

#[test]
fn the_monitor_reports_the_health() {
    let mut health = ProgressWatchdog::new(60, 0, 0);
    assert_eq!(
        health_report(&health.snapshot_at(61_000)),
        HealthReport::Idle { uptime_ms: 61_000 }
    );
    health.request_start_at(1_000);
    health.response_ok_at(1_499);
    assert_eq!(
        health_report(&health.snapshot_at(4_000)),
        HealthReport::Active {
            requests: 1,
            successes: 1,
            failures: 0,
            last_success_age_ms: 2_500
        }
    );
}

#[test]
fn the_monitor_looks_at_the_watchdog() {
    let mut health = ProgressWatchdog::new(60, 0, 0);
    health.request_start_at(0);
    assert_eq!(monitor_tick_at(&mut health, 59_000), None);
    assert_eq!(
        monitor_tick_at(&mut health, 70_000),
        Some(FireReason::NoSuccess)
    );
    assert_eq!(monitor_tick_at(&mut health, 80_000), None);
    let mut disabled = ProgressWatchdog::new(0, 0, 0);
    disabled.request_start_at(0);
    assert_eq!(monitor_tick(&mut disabled), None);
}

#[test]
fn default_settings() {
    let cli = Cli::default();
    assert_eq!(cli.backend, BackendKind::Teflon);
    assert_eq!(cli.endpoint, "tcp://0.0.0.0:5555");
    assert!(cli.model.is_none());
    assert_eq!(cli.delegate, "/usr/lib/teflon/libteflon.so");
    assert_eq!(cli.threads, 1);
    assert_eq!(cli.warmup_runs, 3);
    assert_eq!(cli.inference_timeout_ms, 150);
    assert!(!cli.no_delegate);
    assert_eq!(
        cli.tflite_lib,
        "/usr/lib/aarch64-linux-gnu/libtensorflow-lite.so.2.14.1"
    );
    assert!(!cli.debug);
    assert_eq!(cli.max_no_progress_secs, 60);
    assert_eq!(cli.max_requests, 0);
    assert_eq!(cli.max_lifetime_secs, 0);
    assert_eq!(cli.recv_timeout_secs, 30);
    assert_eq!(cli.send_timeout_secs, 5);
    assert_eq!(cli.default_log_filter(), "info");
    let verbose = Cli { debug: true, ..cli };
    assert_eq!(verbose.default_log_filter(), "debug");
}

#[test]
fn zero_turns_a_timeout_off() {
    assert_eq!(timeout_if_set(0), None);
    assert_eq!(timeout_if_set(30), Some(30));
}

#[test]
fn a_manager_without_a_model_refuses_to_run() {
    let mut manager = TfliteManager::new(other_library(), 1);
    Cli::default().configure(&mut manager);
    assert!(!manager.is_ready());
    assert_eq!(manager.model_name(), None);
    assert!(!manager.is_model_ready("ssd"));
    assert!(matches!(
        manager.run(&[0]),
        Err(SidecarError::ModelNotLoaded)
    ));
    assert!(matches!(
        manager.warmup(),
        Err(SidecarError::ModelNotLoaded)
    ));
}

#[test]
fn a_library_without_the_api_loads_no_model() {
    let mut manager = TfliteManager::new(other_library(), 1);
    match manager.cache_model(vec![1, 2, 3], Some("ssd".to_string())) {
        Err(error) => assert_eq!(
            error.message(),
            "TFLite error: library lacks functions of the TensorFlow Lite C API"
        ),
        Ok(()) => panic!("the C library is not TensorFlow Lite"),
    }
    assert!(!DetectorBackend::is_ready(&manager));
    assert_eq!(DetectorBackend::model_name(&manager), None);
}

#[test]
fn the_c_library_has_no_function_of_the_api() {
    let api = found_functions(other_library());
    assert!(!api.setup.model_create && !api.setup.add_delegate);
    assert!(!api.interpreter.create && !api.interpreter.invoke);
    assert!(!api.tensor.name && !api.tensor.data);
}

#[test]
fn a_failed_load_is_handed_on() {
    let mut manager = TfliteManager::new(other_library(), 1);
    let outcome = manager.install(
        vec![1],
        Some("ssd".to_string()),
        Err(SidecarError::Tflite("Model validation failed: x".to_string())),
    );
    assert_eq!(
        outcome.unwrap_err().message(),
        "TFLite error: Model validation failed: x"
    );
    assert!(!manager.is_ready());
    assert_eq!(manager.model_name(), None);
}

#[test]
fn input_must_fill_the_tensor() {
    assert!(check_input_size(307_200, 307_200).is_ok());
    assert_eq!(
        check_input_size(307_200, 4).unwrap_err().message(),
        "TFLite error: Input size mismatch: tensor expects 307200 bytes, got 4"
    );
}

#[test]
fn numbers_in_decimal() {
    for n in [0, 7, 10, 99, 307_200, u64::MAX] {
        assert_eq!(decimal_text(n), format!("{n}"));
    }
}
