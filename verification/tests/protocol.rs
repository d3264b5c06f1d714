use frigate_zmq_detector::backend::{BackendCall, BackendState, DetectorBackend};
use frigate_zmq_detector::error::{Result, SidecarError};
use frigate_zmq_detector::json::{has_field, read_header, text_field, HeaderField};
use frigate_zmq_detector::protocol::{
    answer_model_request, classify_header, classify_message, detection_reply, dispatch,
    handle_inference, handle_model_request, model_availability_reply, model_error_reply,
    model_loaded_reply, output_or_zeros, zero_inference_reply, ModelAnswer,
};
use zeromq::ZmqMessage;

const TENSOR: &str = "{\"dtype\":\"float32\",\"shape\":[20,6]}";
const LOADED: &str = "{\"model_available\":true,\"model_loaded\":true}";
const MISSING: &str = "{\"model_available\":false,\"model_loaded\":false}";
const SAVED: &str = "{\"model_loaded\":true,\"model_saved\":true}";

struct Fake {
    model: Option<Vec<u8>>,
    name: Option<String>,
    inputs: Vec<Vec<u8>>,
    loads: Vec<(Vec<u8>, Option<String>)>,
    broken: bool,
}

impl Fake {
    fn empty() -> Self {
        Fake {
            model: None,
            name: None,
            inputs: vec![],
            loads: vec![],
            broken: false,
        }
    }

    fn with_model(name: &str) -> Self {
        Fake {
            model: Some(vec![1, 2, 3]),
            name: Some(name.to_string()),
            ..Fake::empty()
        }
    }
}

impl DetectorBackend for Fake {
    fn state(&self) -> BackendState {
        unreachable!()
    }

    fn leads_to(&self, _after: &Self, _call: BackendCall) -> bool {
        unreachable!()
    }

    fn is_ready(&self) -> bool {
        self.model.is_some()
    }

    fn model_name(&self) -> Option<&str> {
        self.name.as_deref()
    }

    fn is_model_ready(&self, model_name: &str) -> bool {
        self.is_ready() && self.model_name() == Some(model_name)
    }

    fn cache_model(&mut self, data: Vec<u8>, model_name: Option<String>) -> Result<()> {
        self.loads.push((data.clone(), model_name.clone()));
        if self.broken {
            return Err(SidecarError::Tflite("not a model".to_string()));
        }
        self.model = Some(data);
        self.name = model_name;
        Ok(())
    }

    fn run(&mut self, input_bytes: &[u8]) -> Result<Vec<u8>> {
        self.inputs.push(input_bytes.to_vec());
        if self.broken {
            return Err(SidecarError::Tflite("invoke".to_string()));
        }
        Ok(vec![input_bytes.len() as u8; 480])
    }

    fn warmup(&mut self) -> Result<()> {
        Ok(())
    }
}

fn message(frames: &[&[u8]]) -> ZmqMessage {
    let mut msg = ZmqMessage::from(frames[0].to_vec());
    for frame in &frames[1..] {
        msg.push_back(frame.to_vec().into());
    }
    msg
}

fn frames(msg: ZmqMessage) -> Vec<Vec<u8>> {
    msg.into_vec().iter().map(|f| f.to_vec()).collect()
}

fn one(msg: ZmqMessage) -> String {
    let mut all = frames(msg);
    assert_eq!(all.len(), 1);
    String::from_utf8(all.remove(0)).unwrap()
}

fn detection(msg: ZmqMessage) -> Vec<u8> {
    let mut all = frames(msg);
    assert_eq!(all.len(), 2);
    assert_eq!(all[0], TENSOR.as_bytes());
    all.remove(1)
}

fn answer(msg: ZmqMessage, backend: &mut Fake) -> ZmqMessage {
    dispatch(msg, backend).reply
}

fn fields(header: &str) -> Vec<HeaderField> {
    read_header(header.as_bytes()).unwrap()
}

#[test]
fn headers_are_read() {
    let read = fields("{\"model_name\": \"ssd\", \"model_data\": true, \"shape\": [1]}");
    assert_eq!(read.len(), 3);
    assert!(has_field(&read, "shape"));
    assert!(!has_field(&read, "dtype"));
    assert_eq!(text_field(&read, "model_name"), Some("ssd".to_string()));
    assert_eq!(text_field(&read, "model_data"), None);
    assert_eq!(text_field(&read, "dtype"), None);
}

#[test]
fn values_that_are_no_objects_have_no_members() {
    for header in ["[1, 2]", "3", "null", "\"model_request\"", "{}"] {
        assert_eq!(fields(header).len(), 0, "{header}");
    }
}

#[test]
fn bad_json_is_an_error_with_its_cause() {
    match read_header(b"{") {
        Err(SidecarError::Json(text)) => {
            assert_eq!(
                text,
                "Error(\"EOF while parsing an object\", line: 1, column: 1)"
            );
            let cause = serde_json::from_slice::<serde_json::Value>(b"{").unwrap_err();
            assert_eq!(text, format!("{cause:#?}"));
        }
        _ => panic!("an open brace is not JSON"),
    }
}

#[test]
fn json_errors_convert() {
    let cause = serde_json::from_slice::<serde_json::Value>(b"nope").unwrap_err();
    let expected = format!("JSON error: {cause:#?}");
    assert_eq!(SidecarError::from(cause).message(), expected);
}

#[test]
fn messages_are_classified_by_their_first_frame() {
    assert!(classify_message(&message(&[b"{\"model_request\": true}"])));
    assert!(classify_message(&message(&[
        b"{\"model_data\": true, \"model_name\": \"m\"}",
        b"data"
    ])));
    assert!(classify_message(&message(&[b"{\"model_request\": null}"])));
    assert!(!classify_message(&message(&[
        b"{\"shape\":[1,320,320,3], \"dtype\":\"uint8\"}",
        b"{\"model_request\": true}"
    ])));
    assert!(!classify_message(&message(&[b"\xff\x00"])));
    assert!(!classify_message(&message(&[b""])));
    assert!(!classify_message(&message(&[b"[\"model_request\"]"])));
    assert!(classify_header(&fields("{\"model_data\": 1}")));
    assert!(!classify_header(&fields("{\"model\": 1}")));
}

#[test]
fn replies_are_exact() {
    assert_eq!(one(model_availability_reply(true)), LOADED);
    assert_eq!(one(model_availability_reply(false)), MISSING);
    assert_eq!(one(model_error_reply()), MISSING);
    assert_eq!(one(model_loaded_reply(true, true)), SAVED);
    assert_eq!(
        one(model_loaded_reply(true, false)),
        "{\"model_loaded\":false,\"model_saved\":true}"
    );
    assert_eq!(detection(zero_inference_reply()), vec![0u8; 480]);
    assert_eq!(detection(detection_reply(vec![7, 8])), vec![7, 8]);
}

#[test]
fn availability_is_that_of_the_requested_model() {
    let ask_any = b"{\"model_request\": true}";
    let ask_ssd = b"{\"model_request\": true, \"model_name\": \"ssd\"}";
    let ask_other = b"{\"model_request\": true, \"model_name\": \"yolo\"}";
    let mut empty = Fake::empty();
    assert_eq!(one(answer(message(&[ask_any]), &mut empty)), MISSING);
    assert_eq!(one(answer(message(&[ask_ssd]), &mut empty)), MISSING);
    let mut ready = Fake::with_model("ssd");
    assert_eq!(one(answer(message(&[ask_any]), &mut ready)), LOADED);
    assert_eq!(one(answer(message(&[ask_ssd]), &mut ready)), LOADED);
    assert_eq!(one(answer(message(&[ask_other]), &mut ready)), MISSING);
}

#[test]
fn a_transferred_model_is_found() {
    let mut backend = Fake::empty();
    let transfer = message(&[b"{\"model_data\": true, \"model_name\": \"ssd\"}", b"tflite"]);
    assert_eq!(one(answer(transfer, &mut backend)), SAVED);
    assert_eq!(backend.model, Some(b"tflite".to_vec()));
    let expected = (b"tflite".to_vec(), Some("ssd".to_string()));
    assert_eq!(backend.loads, vec![expected]);
    assert_eq!(backend.name, Some("ssd".to_string()));
    let ask = message(&[b"{\"model_request\": true, \"model_name\": \"ssd\"}"]);
    assert_eq!(one(answer(ask, &mut backend)), LOADED);
}

#[test]
fn a_ready_model_stays() {
    let mut backend = Fake::with_model("first");
    let transfer = message(&[b"{\"model_data\": true, \"model_name\": \"second\"}", b"xyz"]);
    assert_eq!(one(answer(transfer, &mut backend)), SAVED);
    assert_eq!(backend.model, Some(vec![1, 2, 3]));
    assert_eq!(backend.name, Some("first".to_string()));
    assert_eq!(backend.loads.len(), 0);
}

#[test]
fn a_bad_model_is_answered_as_missing() {
    let mut backend = Fake::empty();
    backend.broken = true;
    let transfer = message(&[b"{\"model_data\": true}", b"junk"]);
    assert_eq!(one(answer(transfer, &mut backend)), MISSING);
    assert!(!backend.is_ready());
    let refused = dispatch(message(&[b"{\"model_data\": true}", b"junk"]), &mut backend);
    assert_eq!(
        refused.error.unwrap().message(),
        "TFLite error: not a model"
    );
    assert_eq!(backend.loads.len(), 2);
    assert_eq!(backend.loads[1], (b"junk".to_vec(), None));
    match handle_model_request(message(&[b"{}", b"junk"]), &mut backend) {
        Err(error) => assert_eq!(error.message(), "TFLite error: not a model"),
        Ok(_) => panic!("a broken backend loads nothing"),
    }
}

#[test]
fn model_requests_need_a_json_header() {
    let mut backend = Fake::empty();
    let request = message(&[b"{"]);
    assert!(matches!(
        handle_model_request(request, &mut backend),
        Err(SidecarError::Json(_))
    ));
}

#[test]
fn a_model_request_without_frames_is_an_error() {
    let mut request = message(&[b"x"]);
    assert_eq!(request.split_off(0).len(), 1);
    assert_eq!(request.len(), 0);
    assert!(!classify_message(&request));
    match handle_model_request(request, &mut Fake::empty()) {
        Err(error) => assert_eq!(error.message(), "ZMQ error: empty model request"),
        Ok(_) => panic!("nothing was asked"),
    }
}

#[test]
fn answers_to_model_requests() {
    let mut backend = Fake::empty();
    let named = fields("{\"model_name\": \"a\"}");
    let answer = answer_model_request(&named, None, &mut backend);
    assert_eq!(answer.unwrap(), ModelAnswer::Availability(false));
    let answer = answer_model_request(&named, Some(vec![9]), &mut backend);
    assert_eq!(answer.unwrap(), ModelAnswer::Saved);
    let answer = answer_model_request(&named, None, &mut backend);
    assert_eq!(answer.unwrap(), ModelAnswer::Availability(true));
    let other = fields("{\"model_name\": \"b\"}");
    let answer = answer_model_request(&other, None, &mut backend);
    assert_eq!(answer.unwrap(), ModelAnswer::Availability(false));
}

#[test]
fn inference_runs_on_the_second_frame() {
    let mut backend = Fake::with_model("ssd");
    let request = message(&[b"{\"shape\":[1,3],\"dtype\":\"uint8\"}", &[4, 5, 6], b"more"]);
    assert_eq!(detection(answer(request, &mut backend)), vec![3u8; 480]);
    assert_eq!(backend.inputs, vec![vec![4, 5, 6]]);
}

#[test]
fn failed_inference_gives_zero_detections() {
    let mut backend = Fake::with_model("ssd");
    backend.broken = true;
    let request = message(&[b"{}", &[4, 5, 6]]);
    assert_eq!(detection(answer(request, &mut backend)), vec![0u8; 480]);
    assert_eq!(backend.inputs.len(), 1);
    let failed = Err(SidecarError::ModelNotLoaded);
    assert_eq!(output_or_zeros(failed), vec![0u8; 480]);
    assert_eq!(output_or_zeros(Ok(vec![1])), vec![1]);
}

#[test]
fn inference_without_a_model_gives_zero_detections() {
    let mut backend = Fake::empty();
    let request = message(&[b"not json", &[4, 5, 6]]);
    assert_eq!(detection(answer(request, &mut backend)), vec![0u8; 480]);
    assert_eq!(backend.inputs.len(), 0);
}

#[test]
fn inference_needs_two_frames() {
    let mut backend = Fake::with_model("ssd");
    match handle_inference(message(&[b"{}"]), &mut backend) {
        Err(error) => assert_eq!(
            error.message(),
            "ZMQ error: inference request needs 2 frames, got 1"
        ),
        Ok(_) => panic!("one frame is not enough"),
    }
    let reply = dispatch(message(&[b"{}"]), &mut backend);
    assert!(matches!(reply.error, Some(SidecarError::Zmq(_))));
    assert_eq!(detection(reply.reply), vec![0u8; 480]);
    assert_eq!(backend.inputs.len(), 0);
}

#[test]
fn error_messages() {
    let text = || "x".to_string();
    assert_eq!(SidecarError::Io(text()).message(), "I/O error: x");
    assert_eq!(
        SidecarError::InvalidConfiguration(text()).message(),
        "invalid configuration: x"
    );
    assert_eq!(SidecarError::Json(text()).message(), "JSON error: x");
    assert_eq!(SidecarError::ModelNotLoaded.message(), "model not loaded");
    assert_eq!(SidecarError::Tflite(text()).message(), "TFLite error: x");
    assert_eq!(SidecarError::Zmq(text()).message(), "ZMQ error: x");
}
