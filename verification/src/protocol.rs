//! The REQ/REP protocol of Frigate's ZMQ detector: which requests there are and how each is
//! answered.

use crate::backend::{error_of, outcome_of, BackendCall, DetectorBackend};
use crate::detection::{
    lemma_zero_bytes, may_be_reported, zero_bytes, zero_detections, EXPECTED_OUTPUT_BYTES,
};
use crate::error::{Result, SidecarError};
use crate::json::{
    availability_header, field_views, has_field, json_header, json_members, lemma_headers_differ,
    lemma_headers_in_letters, lemma_lookup_finds_the_first, lookup, read_header, saved_header,
    string_of, tensor_header, text_field, write_availability_header, write_saved_header,
    write_tensor_header, HeaderField,
};
use crate::message::{
    first_frame, frame_views, into_frames, message_frames, push_frame, single_frame,
};
use crate::text::{decimal, decimal_text, joined, opt_text};
use crate::tflite::{
    c_api, inference_done, is_new_engine, lemma_inference_succeeds,
    lemma_load_follows_the_settings, lemma_run_reports_the_tensors, settings_stay, ssd_detections,
    TfliteManager,
};
use vstd::prelude::*;
use vstd::utf8::encode_utf8;
use zeromq::ZmqMessage;

verus! {

/// The members of a header.
pub type Fields = Seq<(Seq<char>, Option<Seq<char>>)>;

/// Whether a header is that of a model-management message.
pub open spec fn is_management_header(fields: Fields) -> bool {
    lookup(fields, "model_request"@) is Some || lookup(fields, "model_data"@) is Some
}

/// Whether a message is for model management: its first frame is a JSON object that has the
/// member of a model request or of model data.
pub open spec fn is_management(frames: Seq<Seq<u8>>) -> bool {
    frames.len() > 0 && (json_header(frames[0]) matches Ok(fields) && is_management_header(
        fields,
    ))
}

/// The name of the model that a header asks for, if it names one.
pub open spec fn requested_name(fields: Fields) -> Option<Seq<char>> {
    string_of(lookup(fields, "model_name"@))
}

/// Whether the model that is asked for is loaded: any model where no name is given.
pub open spec fn requested_is_loaded(
    model: Option<Seq<u8>>,
    name: Option<Seq<char>>,
    requested: Option<Seq<char>>,
) -> bool {
    model is Some && (requested is None || name == requested)
}

/// Whether the model that is asked for is loaded in a backend.
pub open spec fn loaded_in<B: DetectorBackend>(backend: B, requested: Option<Seq<char>>) -> bool {
    requested_is_loaded(backend.state().model, backend.state().name, requested)
}

/// The reply to a question for a model.
pub open spec fn availability_reply(loaded: bool) -> Seq<Seq<u8>> {
    seq![availability_header(loaded, loaded)]
}

/// The reply to a model transfer.
pub open spec fn saved_reply() -> Seq<Seq<u8>> {
    seq![saved_header(true, true)]
}

/// The reply to an inference request.
pub open spec fn inference_reply(buffer: Seq<u8>) -> Seq<Seq<u8>> {
    seq![tensor_header(), buffer]
}

/// The detection buffer that is sent: the output of the inference, zeros where it failed.
pub open spec fn buffer_or_zeros(
    outcome: std::result::Result<Seq<u8>, SidecarError>,
) -> Seq<u8> {
    match outcome {
        Ok(buffer) => buffer,
        Err(_) => zero_bytes(),
    }
}

/// Whether the header is that of a model-management message.
pub fn classify_header(fields: &Vec<HeaderField>) -> (r: bool)
    ensures
        r == is_management_header(field_views(fields@)),
{
    has_field(fields, "model_request") || has_field(fields, "model_data")
}

/// Whether the message is for model management.
pub fn classify_message(msg: &ZmqMessage) -> (r: bool)
    ensures
        r == is_management(message_frames(*msg)),
{
    match first_frame(msg) {
        Some(frame) => match read_header(&frame) {
            Ok(fields) => classify_header(&fields),
            Err(_) => false,
        },
        None => false,
    }
}

/// What a model-management message is answered.
#[derive(Clone, Copy, Debug, PartialEq, Eq, Structural)]
pub enum ModelAnswer {
    /// Whether the model is loaded.
    Availability(bool),
    /// The model was accepted.
    Saved,
}

/// Whether a backend is another one after it was asked, once, to load a model from those bytes
/// under that name.
pub open spec fn loaded_by<B: DetectorBackend>(
    before: B,
    after: B,
    data: Seq<u8>,
    name: Option<Seq<char>>,
    error: Option<SidecarError>,
) -> bool {
    &&& after.state() == before.state().after_load(data, name, error)
    &&& before.leads_to(&after, BackendCall::Load { data, name, error })
}

/// Answers a model-management message with that header. Without data it asks whether the
/// model is loaded. With data it transfers the model: where one is ready already, the
/// transfer is acknowledged and ignored, else the data is loaded under the name in the header.
pub fn answer_model_request<B: DetectorBackend>(
    fields: &Vec<HeaderField>,
    data: Option<Vec<u8>>,
    backend: &mut B,
) -> (r: Result<ModelAnswer>)
    ensures
        data is None ==> {
            &&& *final(backend) == *old(backend)
            &&& r matches Ok(answer)
            &&& answer == ModelAnswer::Availability(
                loaded_in(*old(backend), requested_name(field_views(fields@))),
            )
        },
        data is Some && old(backend).state().model is Some ==> {
            &&& *final(backend) == *old(backend)
            &&& r matches Ok(answer)
            &&& answer == ModelAnswer::Saved
        },
        data is Some && old(backend).state().model is None ==> {
            &&& r matches Ok(answer) ==> answer == ModelAnswer::Saved
            &&& loaded_by(
                *old(backend),
                *final(backend),
                data->0@,
                requested_name(field_views(fields@)),
                error_of(r),
            )
        },
{
    let name: Option<String> = text_field(fields, "model_name");
    match data {
        None => {
            let loaded: bool = match &name {
                Some(name) => backend.is_model_ready(name.as_str()),
                None => backend.is_ready(),
            };
            Ok(ModelAnswer::Availability(loaded))
        },
        Some(data) => {
            if backend.is_ready() {
                return Ok(ModelAnswer::Saved);
            }
            match backend.cache_model(data, name) {
                Ok(()) => Ok(ModelAnswer::Saved),
                Err(error) => Err(error),
            }
        },
    }
}

/// How a model-management message with those frames is handled, given the backend before and
/// after and the outcome.
pub open spec fn model_request_handled<B: DetectorBackend>(
    frames: Seq<Seq<u8>>,
    before: B,
    after: B,
    outcome: Result<ZmqMessage>,
) -> bool {
    if frames.len() == 0 {
        &&& after == before
        &&& outcome matches Err(SidecarError::Zmq(text))
        &&& text@ == "empty model request"@
    } else if json_header(frames[0]) is Err {
        &&& after == before
        &&& outcome matches Err(SidecarError::Json(text))
        &&& text@ == json_header(frames[0])->Err_0
    } else {
        let requested = requested_name(json_header(frames[0])->Ok_0);
        if frames.len() == 1 {
            &&& after == before
            &&& outcome matches Ok(reply)
            &&& message_frames(reply) == availability_reply(loaded_in(before, requested))
        } else if before.state().model is Some {
            &&& after == before
            &&& outcome matches Ok(reply)
            &&& message_frames(reply) == saved_reply()
        } else {
            &&& outcome matches Ok(reply) ==> message_frames(reply) == saved_reply()
            &&& loaded_by(before, after, frames[1], requested, error_of(outcome))
        }
    }
}

/// Handles a model availability query (one frame) or a model transfer (header and data).
pub fn handle_model_request<B: DetectorBackend>(msg: ZmqMessage, backend: &mut B) -> (r: Result<
    ZmqMessage,
>)
    ensures
        model_request_handled(message_frames(msg), *old(backend), *final(backend), r),
{
    let mut frames: Vec<Vec<u8>> = into_frames(msg);
    proof {
        assert(frame_views(frames@).len() == frames@.len());
        assert(forall|i: int|
            0 <= i < frames@.len() ==> #[trigger] frame_views(frames@)[i] == frames@[i]@);
    }
    if frames.len() == 0 {
        return Err(SidecarError::Zmq("empty model request".to_owned()));
    }
    let fields: Vec<HeaderField> = match read_header(&frames[0]) {
        Ok(fields) => fields,
        Err(error) => return Err(error),
    };
    let data: Option<Vec<u8>> = if frames.len() == 1 {
        None
    } else {
        Some(frames.swap_remove(1))
    };
    match answer_model_request(&fields, data, backend) {
        Ok(ModelAnswer::Availability(loaded)) => Ok(model_availability_reply(loaded)),
        Ok(ModelAnswer::Saved) => Ok(model_loaded_reply(true, true)),
        Err(error) => Err(error),
    }
}

/// The reply to a question for a model.
pub fn model_availability_reply(loaded: bool) -> (r: ZmqMessage)
    ensures
        message_frames(r) == availability_reply(loaded),
{
    single_frame(write_availability_header(loaded, loaded))
}

/// The reply to a model transfer.
pub fn model_loaded_reply(saved: bool, loaded: bool) -> (r: ZmqMessage)
    ensures
        message_frames(r) == seq![saved_header(saved, loaded)],
{
    single_frame(write_saved_header(saved, loaded))
}

/// The reply to a model-management message that could not be handled: no model is loaded.
pub fn model_error_reply() -> (r: ZmqMessage)
    ensures
        message_frames(r) == availability_reply(false),
{
    single_frame(write_availability_header(false, false))
}

/// The reply with a detection buffer.
pub fn detection_reply(buffer: Vec<u8>) -> (r: ZmqMessage)
    ensures
        message_frames(r) == inference_reply(buffer@),
        message_frames(r).len() == 2,
        message_frames(r)[1] == buffer@,
{
    let mut reply: ZmqMessage = single_frame(write_tensor_header());
    push_frame(&mut reply, buffer);
    proof {
        assert(message_frames(reply) =~= inference_reply(buffer@));
    }
    reply
}

/// The reply without a detection.
pub fn zero_inference_reply() -> (r: ZmqMessage)
    ensures
        message_frames(r) == inference_reply(zero_bytes()),
{
    detection_reply(zero_detections())
}

/// The detection buffer that is sent for the outcome of an inference.
pub fn output_or_zeros(outcome: Result<Vec<u8>>) -> (r: Vec<u8>)
    ensures
        r@ == buffer_or_zeros(outcome_of(outcome)),
        outcome matches Ok(buffer) ==> r@ == buffer@,
        outcome is Err ==> r@.len() == 480 && forall|i: int| 0 <= i < 480 ==> #[trigger] r@[i] == 0,
{
    match outcome {
        Ok(buffer) => buffer,
        Err(_) => zero_detections(),
    }
}

/// The error where an inference request has too few frames.
pub open spec fn few_frames_complaint(got: nat) -> Seq<char> {
    "inference request needs 2 frames, got "@ + decimal(got)
}

/// How an inference request with that input is answered, given the backend before and after:
/// without a model nothing is run; else one inference is run on the input, and its output is
/// sent, zeros where it failed.
pub open spec fn inference_answered<B: DetectorBackend>(
    input: Seq<u8>,
    before: B,
    after: B,
    reply: Seq<Seq<u8>>,
) -> bool {
    &&& reply.len() == 2
    &&& reply[1].len() == EXPECTED_OUTPUT_BYTES
    &&& if before.state().model is None {
        &&& after == before
        &&& reply == inference_reply(zero_bytes())
    } else {
        exists|outcome: std::result::Result<Seq<u8>, SidecarError>|
            {
                &&& after.state() == before.state().with_call(
                    #[trigger] run_call(input, outcome),
                )
                &&& before.leads_to(&after, run_call(input, outcome))
                &&& reply == inference_reply(buffer_or_zeros(outcome))
            }
    }
}

/// An inference on that input with that outcome.
pub open spec fn run_call(
    input: Seq<u8>,
    outcome: std::result::Result<Seq<u8>, SidecarError>,
) -> BackendCall {
    BackendCall::Run { input, outcome }
}

/// How an inference request with those frames is handled, given the backend before and after
/// and the outcome.
pub open spec fn inference_handled<B: DetectorBackend>(
    frames: Seq<Seq<u8>>,
    before: B,
    after: B,
    outcome: Result<ZmqMessage>,
) -> bool {
    if frames.len() < 2 {
        &&& after == before
        &&& outcome matches Err(SidecarError::Zmq(text))
        &&& text@ == few_frames_complaint(frames.len())
    } else {
        &&& outcome matches Ok(reply)
        &&& inference_answered(frames[1], before, after, message_frames(reply))
    }
}

/// Handles an inference request: header and input. A failed inference, and a request before a
/// model is ready, are answered without a detection.
pub fn handle_inference<B: DetectorBackend>(msg: ZmqMessage, backend: &mut B) -> (r: Result<
    ZmqMessage,
>)
    ensures
        inference_handled(message_frames(msg), *old(backend), *final(backend), r),
{
    let frames: Vec<Vec<u8>> = into_frames(msg);
    proof {
        assert(frame_views(frames@).len() == frames@.len());
        assert(forall|i: int|
            0 <= i < frames@.len() ==> #[trigger] frame_views(frames@)[i] == frames@[i]@);
    }
    if frames.len() < 2 {
        return Err(
            SidecarError::Zmq(
                joined(
                    "inference request needs 2 frames, got ",
                    decimal_text(frames.len() as u64).as_str(),
                ),
            ),
        );
    }
    if !backend.is_ready() {
        return Ok(zero_inference_reply());
    }
    let outcome: Result<Vec<u8>> = backend.run(&frames[1]);
    let ghost known = outcome_of(outcome);
    let reply: ZmqMessage = detection_reply(output_or_zeros(outcome));
    proof {
        assert(backend.state() == old(backend).state().with_call(run_call(frames@[1]@, known)));
    }
    Ok(reply)
}

/// How a model-management message is answered, given the backend before and after.
pub open spec fn management_dispatched<B: DetectorBackend>(
    frames: Seq<Seq<u8>>,
    before: B,
    after: B,
    reply: Seq<Seq<u8>>,
    error: Option<SidecarError>,
) -> bool {
    let requested = requested_name(json_header(frames[0])->Ok_0);
    if frames.len() == 1 {
        &&& after == before
        &&& reply == availability_reply(loaded_in(before, requested))
        &&& error is None
    } else if before.state().model is Some {
        &&& after == before
        &&& reply == saved_reply()
        &&& error is None
    } else {
        &&& loaded_by(before, after, frames[1], requested, error)
        &&& reply == if error is None {
            saved_reply()
        } else {
            availability_reply(false)
        }
    }
}

/// How any other message is answered, given the backend before and after.
pub open spec fn inference_dispatched<B: DetectorBackend>(
    frames: Seq<Seq<u8>>,
    before: B,
    after: B,
    reply: Seq<Seq<u8>>,
    error: Option<SidecarError>,
) -> bool {
    if frames.len() < 2 {
        &&& after == before
        &&& reply == inference_reply(zero_bytes())
        &&& error matches Some(SidecarError::Zmq(text))
        &&& text@ == few_frames_complaint(frames.len())
    } else {
        &&& inference_answered(frames[1], before, after, reply)
        &&& error is None
    }
}

/// How a message is answered, given the backend before and after: the reply, and the error
/// where the message could not be handled.
pub open spec fn dispatched<B: DetectorBackend>(
    frames: Seq<Seq<u8>>,
    before: B,
    after: B,
    reply: Seq<Seq<u8>>,
    error: Option<SidecarError>,
) -> bool {
    if is_management(frames) {
        management_dispatched(frames, before, after, reply, error)
    } else {
        inference_dispatched(frames, before, after, reply, error)
    }
}

/// A reply, and the error where the message could not be handled.
pub struct Answer {
    pub reply: ZmqMessage,
    pub error: Option<SidecarError>,
}

/// Answers any message: a model-management message that cannot be handled with the reply that
/// no model is loaded, an inference request that cannot be handled without a detection.
pub fn dispatch<B: DetectorBackend>(msg: ZmqMessage, backend: &mut B) -> (r: Answer)
    ensures
        dispatched(
            message_frames(msg),
            *old(backend),
            *final(backend),
            message_frames(r.reply),
            r.error,
        ),
{
    if classify_message(&msg) {
        match handle_model_request(msg, backend) {
            Ok(reply) => Answer { reply, error: None },
            Err(error) => Answer { reply: model_error_reply(), error: Some(error) },
        }
    } else {
        match handle_inference(msg, backend) {
            Ok(reply) => Answer { reply, error: None },
            Err(error) => Answer { reply: zero_inference_reply(), error: Some(error) },
        }
    }
}

/// How a message is answered, with an error or without.
pub open spec fn answered<B: DetectorBackend>(
    frames: Seq<Seq<u8>>,
    before: B,
    after: B,
    reply: Seq<Seq<u8>>,
) -> bool {
    exists|error: Option<SidecarError>| #[trigger]
        dispatched(frames, before, after, reply, error)
}

/// Messages and what came of each, the first of them first: message `i` found the backend in
/// state `i`, left it in the next one and was answered with reply `i`, with or without an error.
pub open spec fn is_conversation<B: DetectorBackend>(
    messages: Seq<Seq<Seq<u8>>>,
    states: Seq<B>,
    replies: Seq<Seq<Seq<u8>>>,
) -> bool {
    &&& states.len() == messages.len() + 1
    &&& replies.len() == messages.len()
    &&& forall|i: int|
        0 <= i < messages.len() ==> answered(
            #[trigger] messages[i],
            states[i],
            states[i + 1],
            replies[i],
        )
}

/// The model that a model-management message asks for, if it names one.
pub open spec fn asked_model(frames: Seq<Seq<u8>>) -> Option<Seq<char>> {
    requested_name(json_header(frames[0])->Ok_0)
}

/// A peer can tell the answers to model-management messages apart by their bytes.
pub proof fn lemma_model_answers_differ(loaded: bool)
    ensures
        saved_reply() != availability_reply(loaded),
        availability_reply(true) != availability_reply(false),
{
    lemma_headers_differ(loaded);
    assert(saved_reply()[0] == saved_header(true, true));
    assert(availability_reply(loaded)[0] == availability_header(loaded, loaded));
    assert(availability_reply(true)[0] == availability_header(true, true));
    assert(availability_reply(false)[0] == availability_header(false, false));
}

/// Once a model is ready it stays, under its name, whatever messages come: later transfers are
/// ignored.
pub proof fn lemma_ready_model_stays<B: DetectorBackend>(
    messages: Seq<Seq<Seq<u8>>>,
    states: Seq<B>,
    replies: Seq<Seq<Seq<u8>>>,
    from: int,
    to: int,
)
    requires
        is_conversation(messages, states, replies),
        0 <= from <= to < states.len(),
        states[from].state().model is Some,
    ensures
        states[to].state().model == states[from].state().model,
        states[to].state().name == states[from].state().name,
    decreases to - from,
{
    if from < to {
        lemma_ready_model_stays(messages, states, replies, from, to - 1);
        assert(answered(messages[to - 1], states[to - 1], states[to], replies[to - 1]));
    }
}

/// Once a model transfer was answered that the model is saved, every later question is
/// answered by it, whatever came between: a question for the transferred name, and one that
/// names no model, that the model is loaded, and a question for another name that it is not.
pub proof fn lemma_transferred_model_is_found<B: DetectorBackend>(
    messages: Seq<Seq<Seq<u8>>>,
    states: Seq<B>,
    replies: Seq<Seq<Seq<u8>>>,
    transfer: int,
    question: int,
)
    requires
        is_conversation(messages, states, replies),
        0 <= transfer < question < messages.len(),
        is_management(messages[transfer]),
        messages[transfer].len() >= 2,
        states[transfer].state().model is None,
        replies[transfer] == saved_reply(),
        is_management(messages[question]),
        messages[question].len() == 1,
    ensures
        states[question].state().model == Some(messages[transfer][1]),
        replies[question] == availability_reply(
            asked_model(messages[question]) is None || asked_model(messages[question])
                == asked_model(messages[transfer]),
        ),
{
    lemma_model_answers_differ(false);
    assert(answered(
        messages[transfer],
        states[transfer],
        states[transfer + 1],
        replies[transfer],
    ));
    lemma_ready_model_stays(messages, states, replies, transfer + 1, question);
    assert(answered(
        messages[question],
        states[question],
        states[question + 1],
        replies[question],
    ));
}

/// Until a model was transferred with success, every question is answered that no model is
/// loaded, and every inference request without a detection.
pub proof fn lemma_nothing_is_found_without_a_model<B: DetectorBackend>(
    messages: Seq<Seq<Seq<u8>>>,
    states: Seq<B>,
    replies: Seq<Seq<Seq<u8>>>,
    until: int,
)
    requires
        is_conversation(messages, states, replies),
        0 <= until < messages.len(),
        states[0].state().model is None,
        forall|i: int| 0 <= i < until ==> #[trigger] replies[i] != saved_reply(),
    ensures
        states[until].state().model is None,
        is_management(messages[until]) && messages[until].len() == 1 ==> replies[until]
            == availability_reply(false),
        !is_management(messages[until]) ==> replies[until] == inference_reply(zero_bytes()),
    decreases until,
{
    if until > 0 {
        lemma_nothing_is_found_without_a_model(messages, states, replies, until - 1);
        assert(answered(
            messages[until - 1],
            states[until - 1],
            states[until],
            replies[until - 1],
        ));
    }
    assert(answered(messages[until], states[until], states[until + 1], replies[until]));
}

/// An inference request to a manager that has an interpreter is answered by that interpreter:
/// it runs once on the second frame, and the reply holds the detections in its output tensors
/// where the run succeeded and they can be read, else zeros. The settings stay.
pub proof fn lemma_interpreter_answers(
    frames: Seq<Seq<u8>>,
    before: TfliteManager,
    after: TfliteManager,
    reply: Seq<Seq<u8>>,
    error: Option<SidecarError>,
)
    requires
        dispatched(frames, before, after, reply, error),
        !is_management(frames),
        frames.len() >= 2,
        before.engine() is Some,
    ensures
        settings_stay(before, after),
        after.engine() is Some,
        reply == inference_reply(ssd_detections(after.engine()->0.outputs)) || reply
            == inference_reply(zero_bytes()),
        exists|outcome: std::result::Result<Seq<u8>, SidecarError>| #[trigger]
            inference_done(before.engine()->0, after.engine()->0, frames[1], outcome) && reply
                == inference_reply(buffer_or_zeros(outcome)),
        reply != inference_reply(zero_bytes()) ==> after.engine()->0.runs
            == before.engine()->0.runs.push((frames[1], None)),
{
    let outcome = choose|outcome: std::result::Result<Seq<u8>, SidecarError>|
        {
            &&& after.state() == before.state().with_call(#[trigger] run_call(frames[1], outcome))
            &&& before.leads_to(&after, run_call(frames[1], outcome))
            &&& reply == inference_reply(buffer_or_zeros(outcome))
        };
    assert(inference_done(before.engine()->0, after.engine()->0, frames[1], outcome));
}

/// A model transfer to a manager without a model that is answered that the model is saved has
/// made an interpreter from the second frame, as it was wanted, that has not run.
pub proof fn lemma_transfer_makes_the_interpreter(
    frames: Seq<Seq<u8>>,
    before: TfliteManager,
    after: TfliteManager,
    reply: Seq<Seq<u8>>,
    error: Option<SidecarError>,
)
    requires
        dispatched(frames, before, after, reply, error),
        is_management(frames),
        frames.len() >= 2,
        before.engine() is None,
        reply == saved_reply(),
    ensures
        settings_stay(before, after),
        after.engine() is Some,
        is_new_engine(after.engine()->0, before.wanted_setup(), frames[1]),
{
    lemma_model_answers_differ(false);
}

/// Which messages are for model management, member by member: those whose first frame is a JSON
/// object with a member `model_request` or `model_data`, and no others.
pub proof fn lemma_what_is_management(frames: Seq<Seq<u8>>)
    ensures
        frames.len() == 0 ==> !is_management(frames),
        frames.len() > 0 && json_members(frames[0]) is Err ==> !is_management(frames),
        frames.len() > 0 && json_members(frames[0]) == Ok::<Option<Fields>, Seq<char>>(None)
            ==> !is_management(frames),
        frames.len() > 0 && json_members(frames[0]) is Ok && json_members(frames[0])->Ok_0 is Some
            ==> (is_management(frames) <==> exists|i: int|
            {
                &&& 0 <= i < (json_members(frames[0])->Ok_0->0).len()
                &&& (#[trigger] (json_members(frames[0])->Ok_0->0)[i]).0 == "model_request"@
                    || (json_members(frames[0])->Ok_0->0)[i].0 == "model_data"@
            }),
{
    if frames.len() > 0 {
        if json_members(frames[0]) is Ok {
            if json_members(frames[0])->Ok_0 is Some {
                let fields = json_members(frames[0])->Ok_0->0;
                lemma_lookup_finds_the_first(fields, "model_request"@);
                lemma_lookup_finds_the_first(fields, "model_data"@);
            }
        }
    }
}

/// The model that a model-management message asks for is the string of its first member
/// `model_name`: none where that is no string, and none where there is no such member.
pub proof fn lemma_which_model_is_asked_for(frames: Seq<Seq<u8>>, i: int)
    requires
        is_management(frames),
        json_members(frames[0]) is Ok,
        json_members(frames[0])->Ok_0 is Some,
    ensures
        ({
            let fields = json_members(frames[0])->Ok_0->0;
            &&& 0 <= i < fields.len() && fields[i].0 == "model_name"@ && (forall|j: int|
                0 <= j < i ==> (#[trigger] fields[j]).0 != "model_name"@) ==> asked_model(frames)
                == fields[i].1
            &&& (forall|j: int|
                0 <= j < fields.len() ==> (#[trigger] fields[j]).0 != "model_name"@)
                ==> asked_model(frames) is None
        }),
{
    lemma_lookup_finds_the_first(json_members(frames[0])->Ok_0->0, "model_name"@);
}

/// A question for a model changes nothing and is answered, letter for letter, that it is there
/// exactly where a model is ready and the question names none or the one that is ready.
pub proof fn lemma_question_is_answered<B: DetectorBackend>(
    frames: Seq<Seq<u8>>,
    before: B,
    after: B,
    reply: Seq<Seq<u8>>,
    error: Option<SidecarError>,
)
    requires
        dispatched(frames, before, after, reply, error),
        is_management(frames),
        frames.len() == 1,
    ensures
        after == before,
        error is None,
        reply.len() == 1,
        before.state().model is Some && (asked_model(frames) is None || (
        asked_model(frames) is Some && before.state().name is Some && asked_model(frames)->0
            == before.state().name->0)) ==> reply[0] == encode_utf8(
            "{\"model_available\":true,\"model_loaded\":true}"@,
        ),
        before.state().model is None || (asked_model(frames) is Some && (
        before.state().name is None || asked_model(frames)->0 != before.state().name->0))
            ==> reply[0] == encode_utf8("{\"model_available\":false,\"model_loaded\":false}"@),
{
    lemma_headers_in_letters();
}

/// A model transfer where a model is ready changes nothing; else the second frame is to be
/// loaded, once, under the name that is given, and is the model where that succeeds, while
/// model and name stay where it fails. It is answered, letter for letter, that the model is
/// saved, but where loading fails that none is there.
pub proof fn lemma_transfer_is_answered<B: DetectorBackend>(
    frames: Seq<Seq<u8>>,
    before: B,
    after: B,
    reply: Seq<Seq<u8>>,
    error: Option<SidecarError>,
)
    requires
        dispatched(frames, before, after, reply, error),
        is_management(frames),
        frames.len() >= 2,
    ensures
        reply.len() == 1,
        before.state().model is Some ==> after == before && error is None,
        before.state().model is None ==> {
            &&& after.state().calls.len() == before.state().calls.len() + 1
            &&& after.state().calls.drop_last() == before.state().calls
            &&& after.state().calls.last() == (BackendCall::Load {
                data: frames[1],
                name: asked_model(frames),
                error,
            })
        },
        before.state().model is None && error is None ==> after.state().model == Some(frames[1])
            && after.state().name == asked_model(frames),
        error is Some ==> after.state().model is None && after.state().name == before.state().name,
        error is None ==> reply[0] == encode_utf8(
            "{\"model_loaded\":true,\"model_saved\":true}"@,
        ),
        error is Some ==> reply[0] == encode_utf8(
            "{\"model_available\":false,\"model_loaded\":false}"@,
        ),
{
    lemma_headers_in_letters();
    assert(after.state().calls.len() > 0 && after != before ==> after.state().calls.drop_last()
        =~= before.state().calls);
}

/// The second frame of the reply to an inference request is what the inference on the second
/// frame of the request gave, whatever bytes those are. It is zeros only where the inference
/// failed or gave zeros, or where none was run: without a model, and without a second frame.
pub proof fn lemma_reply_holds_the_output<B: DetectorBackend>(
    frames: Seq<Seq<u8>>,
    before: B,
    after: B,
    reply: Seq<Seq<u8>>,
    error: Option<SidecarError>,
)
    requires
        dispatched(frames, before, after, reply, error),
        !is_management(frames),
    ensures
        reply.len() == 2,
        reply[0] == encode_utf8("{\"dtype\":\"float32\",\"shape\":[20,6]}"@),
        reply[1].len() == 480,
        frames.len() >= 2 && before.state().model is Some ==> {
            &&& after.state().model == before.state().model
            &&& after.state().name == before.state().name
            &&& after.state().calls.len() == before.state().calls.len() + 1
            &&& after.state().calls.drop_last() == before.state().calls
            &&& before.leads_to(&after, after.state().calls.last())
            &&& after.state().calls.last() matches BackendCall::Run { input, outcome }
            &&& input == frames[1]
            &&& outcome matches Ok(bytes) ==> reply[1] == bytes
            &&& outcome is Err ==> forall|i: int| 0 <= i < 480 ==> #[trigger] reply[1][i] == 0
        },
        frames.len() < 2 || before.state().model is None ==> {
            &&& after == before
            &&& forall|i: int| 0 <= i < 480 ==> #[trigger] reply[1][i] == 0
        },
        frames.len() >= 2 ==> error is None,
        frames.len() < 2 ==> {
            &&& error matches Some(SidecarError::Zmq(text))
            &&& text@ == "inference request needs 2 frames, got "@ + decimal(frames.len())
        },
{
    lemma_headers_in_letters();
    lemma_zero_bytes();
    if frames.len() >= 2 && before.state().model is Some {
        let outcome = choose|outcome: std::result::Result<Seq<u8>, SidecarError>|
            {
                &&& after.state() == before.state().with_call(
                    #[trigger] run_call(frames[1], outcome),
                )
                &&& before.leads_to(&after, run_call(frames[1], outcome))
                &&& reply == inference_reply(buffer_or_zeros(outcome))
            };
        assert(after.state().calls.last() == run_call(frames[1], outcome));
        assert(after.state().calls.drop_last() =~= before.state().calls);
    }
}

/// What a manager replies to an inference request where its model ran on the second frame
/// without an error and the first four output tensors can be read: the detections, by the
/// positions of the tensors. In row `row` stand element `row` of tensor 1, element `row` of
/// tensor 2 and elements `4 * row` to `4 * row + 3` of tensor 0, each as four bytes from the
/// lowest on, zero beyond the end of a tensor; but zeros where that detection or one before it
/// may not be reported by its score in tensor 2 and the number in tensor 3.
pub proof fn lemma_reply_reports_the_tensors(
    frames: Seq<Seq<u8>>,
    before: TfliteManager,
    after: TfliteManager,
    reply: Seq<Seq<u8>>,
    error: Option<SidecarError>,
    row: int,
    column: int,
)
    requires
        dispatched(frames, before, after, reply, error),
        !is_management(frames),
        frames.len() >= 2,
        before.engine() is Some,
        after.engine() is Some,
        ({
            let api = c_api(before.engine()->0.setup.library);
            let tensors = after.engine()->0.outputs->Ok_0;
            &&& after.engine()->0.runs == before.engine()->0.runs.push((frames[1], None))
            &&& api.interpreter.output_count && api.interpreter.output
            &&& api.tensor.name && api.tensor.num_dims && api.tensor.dim && api.tensor.byte_size
                && api.tensor.data
            &&& after.engine()->0.outputs is Ok
            &&& tensors.len() >= 4
            &&& tensors[0] is Ok
            &&& tensors[1] is Ok
            &&& tensors[2] is Ok
            &&& tensors[3] is Ok
        }),
        0 <= row < 20,
        0 <= column < 6,
    ensures
        error is None,
        reply.len() == 2,
        reply[1].len() == 480,
        ({
            let at = 24 * row + 4 * column;
            reply[1][at] + 0x100 * reply[1][at + 1] + 0x1_0000 * reply[1][at + 2] + 0x100_0000
                * reply[1][at + 3]
        }) == ({
            let tensors = after.engine()->0.outputs->Ok_0;
            if !(forall|j: int|
                0 <= j <= row ==> #[trigger] may_be_reported(
                    tensors[2]->Ok_0,
                    tensors[3]->Ok_0,
                    j,
                )) {
                0
            } else if column == 0 {
                if row < (tensors[1]->Ok_0).len() {
                    (tensors[1]->Ok_0)[row] as int
                } else {
                    0
                }
            } else if column == 1 {
                if row < (tensors[2]->Ok_0).len() {
                    (tensors[2]->Ok_0)[row] as int
                } else {
                    0
                }
            } else {
                if 4 * row + column - 2 < (tensors[0]->Ok_0).len() {
                    (tensors[0]->Ok_0)[4 * row + column - 2] as int
                } else {
                    0
                }
            }
        }),
{
    let (engine, done) = (before.engine()->0, after.engine()->0);
    lemma_reply_holds_the_output(frames, before, after, reply, error);
    let outcome = after.state().calls.last()->outcome;
    assert(inference_done(engine, done, frames[1], outcome));
    lemma_inference_succeeds(engine, done, frames[1], outcome);
    lemma_run_reports_the_tensors(engine, done, frames[1], outcome->Ok_0, row, column);
}

/// What a manager replies to an inference request where its model failed: zeros.
pub proof fn lemma_failed_run_is_answered_by_zeros(
    frames: Seq<Seq<u8>>,
    before: TfliteManager,
    after: TfliteManager,
    reply: Seq<Seq<u8>>,
    error: Option<SidecarError>,
)
    requires
        dispatched(frames, before, after, reply, error),
        !is_management(frames),
        frames.len() >= 2,
        before.engine() is Some,
        after.engine() is Some,
        after.engine()->0.runs.len() > before.engine()->0.runs.len(),
        after.engine()->0.runs.last().1 is Some,
    ensures
        reply.len() == 2,
        reply[1].len() == 480,
        forall|i: int| 0 <= i < 480 ==> #[trigger] reply[1][i] == 0,
{
    let (engine, done) = (before.engine()->0, after.engine()->0);
    lemma_reply_holds_the_output(frames, before, after, reply, error);
    let outcome = after.state().calls.last()->outcome;
    assert(inference_done(engine, done, frames[1], outcome));
    lemma_inference_succeeds(engine, done, frames[1], outcome);
}

/// A model transfer to a manager without a model that is answered without an error has made an
/// interpreter from the second frame that follows the settings: with exactly the delegate at the
/// path that is set, where it is enabled and the path is not empty, and with none otherwise, and
/// with the number of threads that is set.
pub proof fn lemma_transfer_follows_the_settings(
    frames: Seq<Seq<u8>>,
    before: TfliteManager,
    after: TfliteManager,
    reply: Seq<Seq<u8>>,
    error: Option<SidecarError>,
)
    requires
        dispatched(frames, before, after, reply, error),
        is_management(frames),
        frames.len() >= 2,
        before.engine() is None,
        error is None,
    ensures
        ({
            let setup = after.engine()->0.setup;
            &&& after.engine() is Some
            &&& after.engine()->0.model == frames[1]
            &&& setup.library == before.library()
            &&& setup.threads is Some
            &&& setup.threads->0 == before.thread_count()
            &&& before.uses_delegate() && before.delegate().len() > 0 ==> setup.delegates.len() == 1
                && setup.delegates[0] == before.delegate()
            &&& !before.uses_delegate() || before.delegate().len() == 0 ==> setup.delegates.len()
                == 0
        }),
{
    lemma_load_follows_the_settings(before, after, frames[1], error);
}

/// What is said of model-management messages that cannot be handled: of one without a frame
/// that it is empty, of one whose first frame is not JSON what is wrong with it. Neither
/// changes anything.
pub proof fn lemma_bad_model_requests<B: DetectorBackend>(
    frames: Seq<Seq<u8>>,
    before: B,
    after: B,
    outcome: Result<ZmqMessage>,
)
    requires
        model_request_handled(frames, before, after, outcome),
    ensures
        frames.len() == 0 ==> {
            &&& after == before
            &&& outcome matches Err(SidecarError::Zmq(text))
            &&& text@ == "empty model request"@
        },
        frames.len() > 0 && json_members(frames[0]) is Err ==> {
            &&& after == before
            &&& outcome matches Err(SidecarError::Json(text))
            &&& text@ == json_members(frames[0])->Err_0
        },
        frames.len() == 1 && json_members(frames[0]) is Ok ==> outcome is Ok && after == before,
        frames.len() > 1 && json_members(frames[0]) is Ok && before.state().model is Some
            ==> outcome is Ok && after == before,
{
}

} // verus!
