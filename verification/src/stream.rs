//! What both stream decoders share: the messages that report progress to
//! the client, and the outcome of feeding a decoder.

use vstd::prelude::*;
use vstd::utf8::{decode_utf8, valid_utf8};
use crate::json::{json_views, object1, object2, Json, JsonView};

verus! {

/// The progress message of the kind `event_type` without a delta.
pub open spec fn plain_event(event_type: Seq<char>) -> JsonView {
    JsonView::Object(
        seq![
            ("type"@, JsonView::Str("stream_event"@)),
            ("event"@, JsonView::Object(seq![("type"@, JsonView::Str(event_type))])),
        ],
    )
}

/// The progress message of the kind `event_type` that carries `delta`.
pub open spec fn delta_event(event_type: Seq<char>, delta: JsonView) -> JsonView {
    JsonView::Object(
        seq![
            ("type"@, JsonView::Str("stream_event"@)),
            (
                "event"@,
                JsonView::Object(seq![("type"@, JsonView::Str(event_type)), ("delta"@, delta)]),
            ),
        ],
    )
}

/// The progress message of the kind `event_type`, with `delta` if there is
/// one.
pub open spec fn stream_event(event_type: Seq<char>, delta: Option<JsonView>) -> JsonView {
    match delta {
        Some(d) => delta_event(event_type, d),
        None => plain_event(event_type),
    }
}

/// The message that a block of text has begun.
pub open spec fn start_event() -> JsonView {
    plain_event("content_block_start"@)
}

/// The message that a block has ended.
pub open spec fn stop_event() -> JsonView {
    plain_event("content_block_stop"@)
}

/// The message that the piece `text` of the reply's text has arrived.
pub open spec fn text_event(text: Seq<char>) -> JsonView {
    delta_event(
        "content_block_delta"@,
        JsonView::Object(
            seq![("type"@, JsonView::Str("text_delta"@)), ("text"@, JsonView::Str(text))],
        ),
    )
}

/// The view of an optional JSON value.
pub open spec fn delta_view(delta: Option<Json>) -> Option<JsonView> {
    match delta {
        Some(d) => Some(d@),
        None => None,
    }
}

/// The progress message of the kind `event_type`, with `delta` if there is
/// one.
pub fn stream_event_message(event_type: &str, delta: Option<Json>) -> (r: Json)
    ensures
        r@ == stream_event(event_type@, delta_view(delta)),
{
    let event = match delta {
        Some(d) => object2("type", Json::string(event_type), "delta", d),
        None => object1("type", Json::string(event_type)),
    };
    object2("type", Json::string("stream_event"), "event", event)
}

/// The message that the piece `text` of the reply's text has arrived.
pub fn text_delta_message(text: &str) -> (r: Json)
    ensures
        r@ == text_event(text@),
{
    stream_event_message(
        "content_block_delta",
        Some(object2("type", Json::string("text_delta"), "text", Json::string(text))),
    )
}

/// The text that `String::from_utf8_lossy` makes of bytes: the text that
/// they encode, with the replacement character in place of every stretch
/// that is no UTF-8.
pub uninterp spec fn lossy_text(bytes: Seq<u8>) -> Seq<char>;

/// `String::from_utf8_lossy`: reads bytes as text and never fails. The
/// contract names the text, which depends on the bytes alone, and says what
/// it is for bytes that are UTF-8: the text that they encode.
#[verifier::external_body]
pub(crate) fn decode_lossy(bytes: &[u8]) -> (r: String)
    ensures
        r@ == lossy_text(bytes@),
        valid_utf8(bytes@) ==> r@ == decode_utf8(bytes@),
{
    String::from_utf8_lossy(bytes).into_owned()
}

/// What feeding a decoder gave: the progress messages to send to the
/// client, in order, and the failure that stopped the decoding, if any.
/// Messages made before a failure are still to be sent.
#[derive(Debug, PartialEq)]
pub struct Fed {
    pub emitted: Vec<Json>,
    pub failure: Option<String>,
}

/// The view of what feeding gave.
pub open spec fn fed_view(fed: Fed) -> (Seq<JsonView>, Option<Seq<char>>) {
    (
        json_views(fed.emitted@),
        match fed.failure {
            Some(e) => Some(e@),
            None => None,
        },
    )
}

} // verus!
