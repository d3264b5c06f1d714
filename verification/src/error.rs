//! Error type of the sidecar.

use crate::text::joined;
use vstd::prelude::*;
use vstd::string::*;

verus! {

/// What went wrong in the sidecar.
#[derive(Debug)]
pub enum SidecarError {
    /// I/O error (model save, file access, etc.).
    Io(String),
    /// Invalid configuration.
    InvalidConfiguration(String),
    /// JSON parse error.
    Json(String),
    /// No model was loaded when inference was requested.
    ModelNotLoaded,
    /// Inference, delegate or model error.
    Tflite(String),
    /// ZMQ socket or protocol error.
    Zmq(String),
}

/// Result of the sidecar's operations.
pub type Result<T> = std::result::Result<T, SidecarError>;

impl SidecarError {
    /// The message that is shown for the error.
    pub open spec fn words(self) -> Seq<char> {
        match self {
            SidecarError::Io(msg) => "I/O error: "@ + msg@,
            SidecarError::InvalidConfiguration(msg) => "invalid configuration: "@ + msg@,
            SidecarError::Json(msg) => "JSON error: "@ + msg@,
            SidecarError::ModelNotLoaded => "model not loaded"@,
            SidecarError::Tflite(msg) => "TFLite error: "@ + msg@,
            SidecarError::Zmq(msg) => "ZMQ error: "@ + msg@,
        }
    }

    /// The message that is shown for the error.
    pub fn message(&self) -> (r: String)
        ensures
            r@ == self.words(),
            *self matches SidecarError::Io(msg) ==> r@ == "I/O error: "@ + msg@,
            *self matches SidecarError::InvalidConfiguration(msg) ==> r@
                == "invalid configuration: "@ + msg@,
            *self matches SidecarError::Json(msg) ==> r@ == "JSON error: "@ + msg@,
            *self is ModelNotLoaded ==> r@ == "model not loaded"@,
            *self matches SidecarError::Tflite(msg) ==> r@ == "TFLite error: "@ + msg@,
            *self matches SidecarError::Zmq(msg) ==> r@ == "ZMQ error: "@ + msg@,
    {
        match self {
            SidecarError::Io(msg) => joined("I/O error: ", msg.as_str()),
            SidecarError::InvalidConfiguration(msg) => joined(
                "invalid configuration: ",
                msg.as_str(),
            ),
            SidecarError::Json(msg) => joined("JSON error: ", msg.as_str()),
            SidecarError::ModelNotLoaded => "model not loaded".to_owned(),
            SidecarError::Tflite(msg) => joined("TFLite error: ", msg.as_str()),
            SidecarError::Zmq(msg) => joined("ZMQ error: ", msg.as_str()),
        }
    }
}

} // verus!
