//! Messages of the wire protocol as sequences of frames.

use vstd::prelude::*;
use zeromq::ZmqMessage;

verus! {

/// `zeromq::ZmqMessage`, a queue of frames.
#[verifier::external_type_specification]
#[verifier::external_body]
pub struct ExZmqMessage(zeromq::ZmqMessage);

/// The bytes of the frames of a message, the first frame first.
pub uninterp spec fn message_frames(message: ZmqMessage) -> Seq<Seq<u8>>;

/// The bytes of frames.
pub open spec fn frame_views(frames: Seq<Vec<u8>>) -> Seq<Seq<u8>> {
    frames.map_values(|frame: Vec<u8>| frame@)
}

/// `ZmqMessage::get` of the first frame: its bytes, `None` where the message has no frame.
#[verifier::external_body]
pub(crate) fn first_frame(message: &ZmqMessage) -> (r: Option<Vec<u8>>)
    ensures
        r is None <==> message_frames(*message).len() == 0,
        r matches Some(frame) ==> frame@ == message_frames(*message)[0],
{
    message.get(0).map(|frame| frame.to_vec())
}

/// `ZmqMessage::into_vec`: the bytes of all frames in order.
#[verifier::external_body]
pub(crate) fn into_frames(message: ZmqMessage) -> (r: Vec<Vec<u8>>)
    ensures
        frame_views(r@) == message_frames(message),
{
    message.into_vec().into_iter().map(|frame| frame.to_vec()).collect()
}

/// `ZmqMessage::from` of bytes: a message with them as its only frame.
#[verifier::external_body]
pub(crate) fn single_frame(frame: Vec<u8>) -> (r: ZmqMessage)
    ensures
        message_frames(r) == seq![frame@],
{
    ZmqMessage::from(frame)
}

/// `ZmqMessage::push_back`: adds a frame behind the others.
#[verifier::external_body]
pub(crate) fn push_frame(message: &mut ZmqMessage, frame: Vec<u8>)
    ensures
        message_frames(*final(message)) == message_frames(*old(message)).push(frame@),
{
    message.push_back(frame.into());
}

} // verus!
