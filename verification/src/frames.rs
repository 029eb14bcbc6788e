//! Wire frames.
//!
//! Outbound, the session sends raw chunk bytes plus one terminal control
//! frame. Inbound, text frames carry JSON with the recognized shape
//! `{event, result: {Text}, code, message}`. The JSON lifting itself is
//! done by serde_json behind a trusted wrapper; everything that decides
//! what a frame *means* — which event it is, when a code aborts the
//! session, which defaults apply — is verified here.

use vstd::prelude::*;

verus! {

use crate::session::TranscriptEvent;

/// The recognized fields of an inbound frame, exactly as the original JSON
/// offers them: absent or wrongly-typed fields surface as `None`, an absent
/// `event` as the empty string.
#[derive(Debug, Clone, PartialEq)]
pub struct RawFrame {
    /// The `event` field, or empty when absent.
    pub event: String,
    /// The `result.Text` field, when present and a string.
    pub result_text: Option<String>,
    /// The `code` field, when present and an integer.
    pub code: Option<i64>,
    /// The `message` field, when present and a string.
    pub message: Option<String>,
}

/// What serde_json finds in a frame: `None` when the text is not valid
/// JSON, otherwise the recognized fields.
pub uninterp spec fn frame_fields_of(text: Seq<char>) -> Option<RawFrame>;

/// Relies on serde_json::from_str and the serde_json::Value accessors
/// `get`, `as_str` and `as_i64`: parses a text frame as JSON and lifts out
/// the recognized fields; everything else in the frame is ignored. The
/// result is a function of the text alone.
#[verifier::external_body]
fn decode_frame_fields(text: &str) -> (r: Option<RawFrame>)
    ensures
        r == frame_fields_of(text@),
{
    let v: serde_json::Value = serde_json::from_str(text).ok()?;
    Some(RawFrame {
        event: v.get("event").and_then(|e| e.as_str()).unwrap_or("").to_string(),
        result_text: v
            .get("result")
            .and_then(|r| r.get("Text"))
            .and_then(|t| t.as_str())
            .map(|t| t.to_string()),
        code: v.get("code").and_then(|c| c.as_i64()),
        message: v.get("message").and_then(|m| m.as_str()).map(|m| m.to_string()),
    })
}

/// The text a finish event carries onward: the frame's result text when one
/// exists, empty otherwise.
pub open spec fn spec_finish_text(f: RawFrame) -> Seq<char> {
    match f.result_text {
        Some(t) => t@,
        None => Seq::empty(),
    }
}

/// The message a service error carries: the frame's message when one
/// exists, the fixed placeholder otherwise.
pub open spec fn spec_error_message(f: RawFrame) -> Seq<char> {
    match f.message {
        Some(m) => m@,
        None => "unknown"@,
    }
}

/// How recognized fields classify into a transcript event, pinned per case:
/// a `result` event with non-empty text is a partial; a `finish` event
/// always finishes; an unnamed event with a non-zero code is a service
/// error; everything else is ignored.
pub open spec fn classify_matches(f: RawFrame, r: Option<TranscriptEvent>) -> bool {
    if f.event@ == "result"@ {
        match f.result_text {
            Some(t) => if t@.len() > 0 {
                r == Some(TranscriptEvent::Partial(t))
            } else {
                r is None
            },
            None => r is None,
        }
    } else if f.event@ == "finish"@ {
        match r {
            Some(TranscriptEvent::Final(t)) => t@ == spec_finish_text(f),
            _ => false,
        }
    } else if f.event@.len() == 0 {
        match f.code {
            Some(code) => if code != 0 {
                match r {
                    Some(TranscriptEvent::ServiceError(c, m)) => c == code && m@
                        == spec_error_message(f),
                    _ => false,
                }
            } else {
                r is None
            },
            None => r is None,
        }
    } else {
        r is None
    }
}

/// Classify recognized fields into a transcript event; unrecognized events
/// yield nothing and are skipped, not errors.
pub fn classify_frame_fields(f: &RawFrame) -> (r: Option<TranscriptEvent>)
    ensures
        classify_matches(*f, r),
{
    if f.event.eq(&String::from_str("result")) {
        match &f.result_text {
            Some(t) => {
                if t.as_str().is_empty() {
                    None
                } else {
                    Some(TranscriptEvent::Partial(t.clone()))
                }
            },
            None => None,
        }
    } else if f.event.eq(&String::from_str("finish")) {
        match &f.result_text {
            Some(t) => Some(TranscriptEvent::Final(t.clone())),
            None => Some(TranscriptEvent::Final(String::new())),
        }
    } else if f.event.as_str().is_empty() {
        match f.code {
            Some(code) => {
                if code != 0 {
                    let msg = match &f.message {
                        Some(m) => m.clone(),
                        None => String::from_str("unknown"),
                    };
                    Some(TranscriptEvent::ServiceError(code, msg))
                } else {
                    None
                }
            },
            None => None,
        }
    } else {
        None
    }
}

/// Parse one inbound text frame: lift the JSON fields, then classify them.
/// Malformed JSON yields nothing, like an unrecognized event: the session
/// skips it and continues.
pub fn parse_inbound_frame(text: &str) -> (r: Option<TranscriptEvent>)
    ensures
        match frame_fields_of(text@) {
            None => r is None,
            Some(f) => classify_matches(f, r),
        },
{
    match decode_frame_fields(text) {
        None => None,
        Some(f) => classify_frame_fields(&f),
    }
}

/// The single terminal control frame sent outbound after stop.
pub fn finish_frame_text() -> (r: String)
    ensures
        r@ == "{\"event\":\"finish\"}"@,
{
    String::from_str("{\"event\":\"finish\"}")
}

} // verus!
