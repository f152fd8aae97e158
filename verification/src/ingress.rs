//! Callback ingress: which delivery mode a callback route stands for, and
//! how a callback's body becomes a message body from its content type.
use vstd::prelude::*;
use crate::json::JsonValue;
use vstd::utf8::{decode_utf8, valid_utf8};
use crate::bindings::{
    base64_encode_standard, base64_standard_encode, json_document, json_document_from_slice, json_parse_error,
    str_from_utf8, utf8_error_text,
};
use crate::control::media_essence;
use crate::errors::{forbidden, plain_error, HttpError, STATUS_FORBIDDEN};
use crate::text::{
    chars_eq_str, chars_of, find_char, has_prefix_str, has_suffix_str, push_str, slice_chars,
    trim_chars, before_first,
};

verus! {

/// How a callback is delivered to its agent.
#[derive(Debug, Clone, Copy, PartialEq, Eq, Structural)]
pub enum CallbackDeliveryMode {
    EnqueueMessage,
    WakeHint,
}

/// The callback route that received a request.
#[derive(Debug, Clone, Copy, PartialEq, Eq, Structural)]
pub enum CallbackIngressMode {
    Enqueue,
    Wake,
}

/// The delivery mode a trigger must have to be reached by a route.
pub open spec fn route_delivery_mode(mode: CallbackIngressMode) -> CallbackDeliveryMode {
    match mode {
        CallbackIngressMode::Enqueue => CallbackDeliveryMode::EnqueueMessage,
        CallbackIngressMode::Wake => CallbackDeliveryMode::WakeHint,
    }
}

impl CallbackIngressMode {
    /// The delivery mode a trigger must have to be reached by this route.
    pub fn delivery_mode(self) -> (r: CallbackDeliveryMode)
        ensures
            r == route_delivery_mode(self),
    {
        match self {
            CallbackIngressMode::Enqueue => CallbackDeliveryMode::EnqueueMessage,
            CallbackIngressMode::Wake => CallbackDeliveryMode::WakeHint,
        }
    }
}

/// Refuses a callback that reached a route of another delivery mode than
/// its trigger's.
pub fn check_callback_delivery_mode(descriptor_mode: CallbackDeliveryMode, mode: CallbackIngressMode) -> (r: Result<(), HttpError>)
    ensures
        r is Ok <==> descriptor_mode == route_delivery_mode(mode),
        r matches Err(e) ==> plain_error(e, STATUS_FORBIDDEN, "callback delivery mode mismatch"@),
{
    if descriptor_mode != mode.delivery_mode() {
        return Err(forbidden(String::from_str("callback delivery mode mismatch")));
    }
    Ok(())
}

/// `application/json` or any `+json` type, parameters ignored.
pub open spec fn json_content_type(content_type: Seq<char>) -> bool {
    let e = media_essence(content_type);
    e == "application/json"@ || "+json"@.is_suffix_of(e)
}

/// Any `text/` type, parameters ignored.
pub open spec fn text_content_type(content_type: Seq<char>) -> bool {
    "text/"@.is_prefix_of(media_essence(content_type))
}

fn essence_chars(content_type: &str) -> (r: Vec<char>)
    ensures
        r@ == media_essence(content_type@),
{
    let v = chars_of(content_type);
    let semi = find_char(&v, ';');
    let head = slice_chars(&v, 0, semi);
    assert(head@ =~= before_first(content_type@, ';'));
    trim_chars(&head)
}

/// Whether a content type names JSON.
pub fn is_json_content_type(content_type: &str) -> (b: bool)
    ensures
        b == json_content_type(content_type@),
{
    let e = essence_chars(content_type);
    chars_eq_str(&e, "application/json") || has_suffix_str(&e, "+json")
}

/// Whether a content type names text.
pub fn is_text_content_type(content_type: &str) -> (b: bool)
    ensures
        b == text_content_type(content_type@),
{
    let e = essence_chars(content_type);
    has_prefix_str(&e, "text/")
}

/// The message body a callback becomes.
#[derive(Debug)]
pub enum CallbackBody {
    /// The body parsed as one JSON document.
    Json(JsonValue),
    /// The body as text.
    Text(String),
    /// A body kept as base64 in a JSON object, with the content type the
    /// client gave, if any (`{"content_type": .., "body_base64": ..}`).
    Base64 { content_type: Option<String>, body_base64: String },
}

pub open spec fn opt_chars(o: Option<&str>) -> Option<Seq<char>> {
    match o {
        Some(s) => Some(s@),
        None => None,
    }
}

pub open spec fn opt_string_chars(o: Option<String>) -> Option<Seq<char>> {
    match o {
        Some(s) => Some(s@),
        None => None,
    }
}

/// What a callback body becomes, by its content type: JSON types are
/// parsed, text types must be UTF-8, other declared types are kept as
/// base64; without a content type, UTF-8 bodies are text and others base64.
pub open spec fn callback_body_ok(content_type: Option<Seq<char>>, body: Seq<u8>, r: CallbackBody) -> bool {
    match content_type {
        Some(ct) => if json_content_type(ct) {
            r matches CallbackBody::Json(v) && json_parse_error(body) is None && v == json_document(body)
        } else if text_content_type(ct) {
            r matches CallbackBody::Text(t) && valid_utf8(body) && t@ == decode_utf8(body)
        } else {
            r matches CallbackBody::Base64 { content_type: c, body_base64: b } && opt_string_chars(c)
                == Some(ct) && b@ == base64_standard_encode(body)
        },
        None => if valid_utf8(body) {
            r matches CallbackBody::Text(t) && t@ == decode_utf8(body)
        } else {
            r matches CallbackBody::Base64 { content_type: c, body_base64: b } && c is None && b@
                == base64_standard_encode(body)
        },
    }
}

/// The error a callback body is refused with, if any.
pub open spec fn callback_body_error(content_type: Option<Seq<char>>, body: Seq<u8>) -> Option<Seq<char>> {
    match content_type {
        Some(ct) => if json_content_type(ct) {
            match json_parse_error(body) {
                Some(e) => Some("invalid JSON callback body: "@ + e),
                None => None,
            }
        } else if text_content_type(ct) && !valid_utf8(body) {
            Some("invalid UTF-8 callback body: "@ + utf8_error_text(body))
        } else {
            None
        },
        None => None,
    }
}

/// Turns a callback body into a message body according to its content type.
pub fn parse_callback_body(content_type: Option<&str>, body: &[u8]) -> (r: Result<CallbackBody, String>)
    ensures
        match r {
            Ok(b) => callback_body_error(opt_chars(content_type), body@) is None && callback_body_ok(
                opt_chars(content_type),
                body@,
                b,
            ),
            Err(e) => callback_body_error(opt_chars(content_type), body@) == Some(e@),
        },
{
    match content_type {
        Some(ct) => {
            if is_json_content_type(ct) {
                match json_document_from_slice(body) {
                    Ok(value) => Ok(CallbackBody::Json(value)),
                    Err(e) => {
                        let mut m = String::from_str("invalid JSON callback body: ");
                        push_str(&mut m, e.as_str());
                        Err(m)
                    },
                }
            } else if is_text_content_type(ct) {
                match str_from_utf8(body) {
                    Ok(text) => Ok(CallbackBody::Text(text)),
                    Err(e) => {
                        let mut m = String::from_str("invalid UTF-8 callback body: ");
                        push_str(&mut m, e.as_str());
                        Err(m)
                    },
                }
            } else {
                Ok(
                    CallbackBody::Base64 {
                        content_type: Some(String::from_str(ct)),
                        body_base64: base64_encode_standard(body),
                    },
                )
            }
        },
        None => match str_from_utf8(body) {
            Ok(text) => Ok(CallbackBody::Text(text)),
            Err(_) => Ok(
                CallbackBody::Base64 { content_type: None, body_base64: base64_encode_standard(body) },
            ),
        },
    }
}

/// What a callback delivers to its agent.
#[derive(Debug)]
pub struct CallbackDeliveryPayload {
    pub body: Option<CallbackBody>,
    pub content_type: Option<String>,
    pub correlation_id: Option<String>,
    pub causation_id: Option<String>,
}

/// The delivery payload of a callback: its body (none when empty) and the
/// content type it came with (`None` when absent or not visible ASCII).
pub fn build_callback_delivery_payload(content_type: Option<String>, body: &[u8]) -> (r: Result<CallbackDeliveryPayload, String>)
    ensures
        body@.len() == 0 ==> (r matches Ok(p) && p.body is None),
        body@.len() > 0 ==> match r {
            Ok(p) => callback_body_error(opt_string_chars(content_type), body@) is None && (p.body matches Some(b)
                && callback_body_ok(opt_string_chars(content_type), body@, b)),
            Err(e) => callback_body_error(opt_string_chars(content_type), body@) == Some(e@),
        },
        r matches Ok(p) ==> opt_string_chars(p.content_type) == opt_string_chars(content_type)
            && p.correlation_id is None && p.causation_id is None,
{
    let parsed = if body.len() == 0 {
        None
    } else {
        let ct = match &content_type {
            Some(c) => Some(c.as_str()),
            None => None,
        };
        match parse_callback_body(ct, body) {
            Ok(b) => Some(b),
            Err(e) => return Err(e),
        }
    };
    Ok(CallbackDeliveryPayload { body: parsed, content_type, correlation_id: None, causation_id: None })
}

/// Every content type whose essence (the type without parameters) is a
/// `text/` type, other than a `+json` type, is read as text: a UTF-8 body
/// becomes exactly its decoded text, and any other body is refused as
/// invalid UTF-8.
pub proof fn text_types_deliver_their_body_as_text(content_type: Seq<char>, body: Seq<u8>, r: CallbackBody)
    requires
        "text/"@.is_prefix_of(media_essence(content_type)),
        !"+json"@.is_suffix_of(media_essence(content_type)),
    ensures
        valid_utf8(body) ==> callback_body_error(Some(content_type), body) is None,
        valid_utf8(body) && callback_body_ok(Some(content_type), body, r) ==> (r matches CallbackBody::Text(t)
            && t@ == decode_utf8(body)),
        !valid_utf8(body) ==> callback_body_error(Some(content_type), body) == Some(
            "invalid UTF-8 callback body: "@ + utf8_error_text(body),
        ),
{
    reveal_strlit("text/");
    reveal_strlit("application/json");
    let e = media_essence(content_type);
    if e == "application/json"@ {
        assert("text/"@[0] == e[0]);
        assert("application/json"@[0] != "text/"@[0]);
    }
}

} // verus!
