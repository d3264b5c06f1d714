//! Settings of the sidecar.

use crate::tflite::TfliteManager;
use vstd::prelude::*;

verus! {

/// Where replies are bound by default.
pub const DEFAULT_ENDPOINT: &'static str = "tcp://0.0.0.0:5555";

/// Where the delegate is by default.
pub const DEFAULT_DELEGATE: &'static str = "/usr/lib/teflon/libteflon.so";

/// Where the TensorFlow Lite library is by default.
pub const DEFAULT_TFLITE_LIB: &'static str = "/usr/lib/aarch64-linux-gnu/libtensorflow-lite.so.2.14.1";

pub const DEFAULT_THREADS: i32 = 1;

pub const DEFAULT_WARMUP_RUNS: u32 = 3;

pub const DEFAULT_INFERENCE_TIMEOUT_MS: u64 = 150;

pub const DEFAULT_MAX_NO_PROGRESS_SECS: u64 = 60;

pub const DEFAULT_MAX_REQUESTS: u64 = 0;

pub const DEFAULT_MAX_LIFETIME_SECS: u64 = 0;

pub const DEFAULT_RECV_TIMEOUT_SECS: u64 = 30;

pub const DEFAULT_SEND_TIMEOUT_SECS: u64 = 5;

/// A detector backend.
#[derive(Clone, Copy, Debug, PartialEq, Eq, Structural)]
pub enum BackendKind {
    /// TensorFlow Lite with the Mesa Teflon delegate.
    Teflon,
}

/// Settings of the sidecar.
pub struct Cli {
    /// Detector backend to use.
    pub backend: BackendKind,
    /// ZMQ REP endpoint to bind (`tcp://host:port` or `ipc://path`).
    pub endpoint: String,
    /// Path of a model file. If set, model transfers are acknowledged but ignored.
    pub model: Option<String>,
    /// Path of the Teflon delegate's shared library.
    pub delegate: String,
    /// Number of CPU threads of the interpreter.
    pub threads: i32,
    /// Number of warmup runs at startup.
    pub warmup_runs: u32,
    /// Abort and restart the worker if one inference takes longer than this.
    pub inference_timeout_ms: u64,
    /// Disable the delegate (CPU only).
    pub no_delegate: bool,
    /// Path of the TensorFlow Lite shared library.
    pub tflite_lib: String,
    /// Log debug messages.
    pub debug: bool,
    /// Exit if no successful response completes within this many seconds (0 = disabled).
    pub max_no_progress_secs: u64,
    /// Exit cleanly after this many successful inference requests (0 = disabled).
    pub max_requests: u64,
    /// Exit cleanly after this many seconds of uptime (0 = disabled).
    pub max_lifetime_secs: u64,
    /// Timeout of a single receive in seconds (0 = disabled).
    pub recv_timeout_secs: u64,
    /// Timeout of a single send in seconds (0 = disabled).
    pub send_timeout_secs: u64,
}

impl Cli {
    /// The path of the delegate that is used, empty where none is.
    pub open spec fn delegate_in_use(self) -> Seq<char> {
        if self.no_delegate {
            Seq::empty()
        } else {
            self.delegate@
        }
    }

    /// Tells a manager which delegate to use.
    pub fn configure(&self, manager: &mut TfliteManager)
        ensures
            final(manager).delegate() == self.delegate_in_use(),
            self.no_delegate ==> final(manager).delegate().len() == 0,
            !self.no_delegate ==> final(manager).delegate() == self.delegate@,
            final(manager).uses_delegate() == !self.no_delegate,
            final(manager).library() == old(manager).library(),
            final(manager).thread_count() == old(manager).thread_count(),
            final(manager).engine() == old(manager).engine(),
            final(manager).as_backend() == old(manager).as_backend(),
    {
        proof {
            reveal_strlit("");
            assert(""@ =~= Seq::empty());
        }
        if self.no_delegate {
            manager.set_delegate("", false);
        } else {
            manager.set_delegate(self.delegate.as_str(), true);
        }
    }

    /// The log filter that holds where the environment sets none.
    pub fn default_log_filter(&self) -> (r: &'static str)
        ensures
            r@ == if self.debug {
                "debug"@
            } else {
                "info"@
            },
    {
        if self.debug {
            "debug"
        } else {
            "info"
        }
    }
}

impl Default for Cli {
    /// The settings where nothing is given.
    fn default() -> (r: Self)
        ensures
            r.backend == BackendKind::Teflon,
            r.endpoint@ == DEFAULT_ENDPOINT@,
            r.model is None,
            r.delegate@ == DEFAULT_DELEGATE@,
            r.threads == DEFAULT_THREADS,
            r.warmup_runs == DEFAULT_WARMUP_RUNS,
            r.inference_timeout_ms == DEFAULT_INFERENCE_TIMEOUT_MS,
            !r.no_delegate,
            r.tflite_lib@ == DEFAULT_TFLITE_LIB@,
            !r.debug,
            r.max_no_progress_secs == DEFAULT_MAX_NO_PROGRESS_SECS,
            r.max_requests == DEFAULT_MAX_REQUESTS,
            r.max_lifetime_secs == DEFAULT_MAX_LIFETIME_SECS,
            r.recv_timeout_secs == DEFAULT_RECV_TIMEOUT_SECS,
            r.send_timeout_secs == DEFAULT_SEND_TIMEOUT_SECS,
            r.endpoint@ == "tcp://0.0.0.0:5555"@,
            r.delegate@ == "/usr/lib/teflon/libteflon.so"@,
            r.tflite_lib@ == "/usr/lib/aarch64-linux-gnu/libtensorflow-lite.so.2.14.1"@,
            r.threads == 1,
            r.warmup_runs == 3,
            r.inference_timeout_ms == 150,
            r.max_no_progress_secs == 60,
            r.max_requests == 0,
            r.max_lifetime_secs == 0,
            r.recv_timeout_secs == 30,
            r.send_timeout_secs == 5,
    {
        Cli {
            backend: BackendKind::Teflon,
            endpoint: DEFAULT_ENDPOINT.to_owned(),
            model: None,
            delegate: DEFAULT_DELEGATE.to_owned(),
            threads: DEFAULT_THREADS,
            warmup_runs: DEFAULT_WARMUP_RUNS,
            inference_timeout_ms: DEFAULT_INFERENCE_TIMEOUT_MS,
            no_delegate: false,
            tflite_lib: DEFAULT_TFLITE_LIB.to_owned(),
            debug: false,
            max_no_progress_secs: DEFAULT_MAX_NO_PROGRESS_SECS,
            max_requests: DEFAULT_MAX_REQUESTS,
            max_lifetime_secs: DEFAULT_MAX_LIFETIME_SECS,
            recv_timeout_secs: DEFAULT_RECV_TIMEOUT_SECS,
            send_timeout_secs: DEFAULT_SEND_TIMEOUT_SECS,
        }
    }
}

/// A timeout that is set: zero stands for none.
pub fn timeout_if_set(value: u64) -> (r: Option<u64>)
    ensures
        r == if value == 0 {
            None
        } else {
            Some(value)
        },
{
    if value == 0 {
        None
    } else {
        Some(value)
    }
}

} // verus!
