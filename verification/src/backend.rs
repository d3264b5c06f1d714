//! What the protocol asks of an inference backend.

use crate::detection::EXPECTED_OUTPUT_BYTES;
use crate::error::{Result, SidecarError};
use crate::text::opt_text;
use vstd::prelude::*;

verus! {

/// The bytes of an outcome, or its error.
pub open spec fn outcome_of(outcome: Result<Vec<u8>>) -> std::result::Result<
    Seq<u8>,
    SidecarError,
> {
    match outcome {
        Ok(bytes) => Ok(bytes@),
        Err(error) => Err(error),
    }
}

/// The error of an outcome, `None` where it is a success.
pub open spec fn error_of<T>(outcome: Result<T>) -> Option<SidecarError> {
    match outcome {
        Ok(_) => None,
        Err(error) => Some(error),
    }
}

/// The text of an optional string slice.
pub open spec fn opt_str(text: Option<&str>) -> Option<Seq<char>> {
    match text {
        Some(text) => Some(text@),
        None => None,
    }
}

/// Something that a backend was asked to do, and what came of it.
#[verifier::ext_equal]
pub enum BackendCall {
    /// A model was to be loaded from those bytes under that name.
    Load { data: Seq<u8>, name: Option<Seq<char>>, error: Option<SidecarError> },
    /// An inference was to be run on that input; it gave that output, or failed.
    Run { input: Seq<u8>, outcome: std::result::Result<Seq<u8>, SidecarError> },
    /// A warmup was to be run.
    Warmup { error: Option<SidecarError> },
}

/// The state of a backend.
#[verifier::ext_equal]
pub struct BackendState {
    /// The bytes of the model that is loaded and ready for inference, if any.
    pub model: Option<Seq<u8>>,
    /// The name of the loaded model, if known.
    pub name: Option<Seq<char>>,
    /// What the backend was asked to do so far, the first call first.
    pub calls: Seq<BackendCall>,
}

impl BackendState {
    /// The state after one more call that changes no model.
    pub open spec fn with_call(self, call: BackendCall) -> Self {
        BackendState { calls: self.calls.push(call), ..self }
    }

    /// The state after a model was to be loaded: it takes the place of the earlier one, which
    /// stays where loading fails.
    pub open spec fn after_load(
        self,
        data: Seq<u8>,
        name: Option<Seq<char>>,
        error: Option<SidecarError>,
    ) -> Self {
        let called = self.with_call(BackendCall::Load { data, name, error });
        if error is None {
            BackendState { model: Some(data), name, ..called }
        } else {
            called
        }
    }
}

/// Capability that any inference backend must provide.
pub trait DetectorBackend {
    /// The state that the backend is in.
    spec fn state(&self) -> BackendState;

    /// Whether a call leads from this backend to that one: what the backend has to say of a call
    /// beyond its state.
    spec fn leads_to(&self, after: &Self, call: BackendCall) -> bool;

    /// Whether a model is loaded and ready for inference.
    fn is_ready(&self) -> (r: bool)
        ensures
            r == (self.state().model is Some),
    ;

    /// The name of the loaded model, if known.
    fn model_name(&self) -> (r: Option<&str>)
        ensures
            opt_str(r) == self.state().name,
    ;

    /// Whether the backend is ready and the loaded model has that name.
    fn is_model_ready(&self, model_name: &str) -> (r: bool)
        ensures
            r == (self.state().model is Some && self.state().name == Some(model_name@)),
    ;

    /// Loads a model from its bytes. Where that fails, the model that was loaded before, if
    /// any, stays.
    fn cache_model(&mut self, data: Vec<u8>, model_name: Option<String>) -> (r: Result<()>)
        ensures
            final(self).state() == old(self).state().after_load(
                data@,
                opt_text(model_name),
                error_of(r),
            ),
            old(self).leads_to(
                &*final(self),
                BackendCall::Load {
                    data: data@,
                    name: opt_text(model_name),
                    error: error_of(r),
                },
            ),
    ;

    /// Runs one inference on prepared input bytes; the output is a detection buffer.
    fn run(&mut self, input_bytes: &[u8]) -> (r: Result<Vec<u8>>)
        ensures
            r matches Ok(output) ==> output@.len() == EXPECTED_OUTPUT_BYTES,
            final(self).state() == old(self).state().with_call(
                BackendCall::Run { input: input_bytes@, outcome: outcome_of(r) },
            ),
            old(self).leads_to(
                &*final(self),
                BackendCall::Run { input: input_bytes@, outcome: outcome_of(r) },
            ),
    ;

    /// Runs one inference on zeros, so that one-time work is done.
    fn warmup(&mut self) -> (r: Result<()>)
        ensures
            final(self).state() == old(self).state().with_call(
                BackendCall::Warmup { error: error_of(r) },
            ),
            old(self).leads_to(&*final(self), BackendCall::Warmup { error: error_of(r) }),
    ;
}

/// A load that succeeds makes the bytes the model, under the name that was given; one that
/// fails leaves model and name. Either way, and by every other call, one call is added to the
/// earlier ones.
pub proof fn lemma_only_a_load_changes_the_model(
    state: BackendState,
    data: Seq<u8>,
    name: Option<Seq<char>>,
    error: Option<SidecarError>,
    call: BackendCall,
)
    ensures
        error is None ==> state.after_load(data, name, error).model == Some(data)
            && state.after_load(data, name, error).name == name,
        error is Some ==> state.after_load(data, name, error).model == state.model
            && state.after_load(data, name, error).name == state.name,
        state.after_load(data, name, error).calls.len() == state.calls.len() + 1,
        state.after_load(data, name, error).calls.drop_last() == state.calls,
        state.after_load(data, name, error).calls.last() == (BackendCall::Load {
            data,
            name,
            error,
        }),
        state.with_call(call).model == state.model,
        state.with_call(call).name == state.name,
        state.with_call(call).calls.len() == state.calls.len() + 1,
        state.with_call(call).calls.drop_last() == state.calls,
        state.with_call(call).calls.last() == call,
{
    assert(state.calls.push(call).drop_last() =~= state.calls);
    assert(state.calls.push(BackendCall::Load { data, name, error }).drop_last() =~= state.calls);
}

} // verus!
