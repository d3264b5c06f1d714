//! Frigate `type: zmq` detector sidecar: the rules of the wire protocol, of the
//! detection format, of the watchdogs and of the worker supervision.

pub mod backend;
pub mod binary32;
pub mod cli;
pub mod clock;
pub mod detection;
pub mod error;
pub mod json;
pub mod message;
pub mod process_watchdog;
pub mod protocol;
pub mod server;
pub mod stats;
pub mod supervisor;
pub mod text;
pub mod tflite;
pub mod watchdog;
