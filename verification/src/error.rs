//! The errors a ModelSocket client reports.
use vstd::prelude::*;

use crate::protocol::RateLimitErrorDetails;
use crate::text::concat_str;
use vstd::string::StringExecFns;

verus! {

/// Everything that can go wrong on a ModelSocket connection or sequence.
///
/// Failures that come from the transport (WebSocket, URL, JSON, anything
/// else) are carried as the text of the underlying error.
#[derive(Debug)]
pub enum ModelSocketError {
    WebSocket(String),
    Url(String),
    Json(String),
    Protocol(String),
    State(String),
    Open(String),
    /// The outgoing channel is closed.
    Send,
    SeqClosed,
    Command(String),
    Other(String),
    /// An error reported by the server, with its code and rate-limit state.
    Remote { message: String, code: Option<String>, details: Option<RateLimitErrorDetails> },
}

/// The human-readable text of an error.
pub open spec fn error_message(e: ModelSocketError) -> Seq<char> {
    match e {
        ModelSocketError::WebSocket(s) => "ws error: "@ + s@,
        ModelSocketError::Url(s) => "invalid url: "@ + s@,
        ModelSocketError::Json(s) => "json error: "@ + s@,
        ModelSocketError::Protocol(s) => "protocol error: "@ + s@,
        ModelSocketError::State(s) => "state error: "@ + s@,
        ModelSocketError::Open(s) => "open error: "@ + s@,
        ModelSocketError::Send => "channel closed"@,
        ModelSocketError::SeqClosed => "seq closed"@,
        ModelSocketError::Command(s) => "command error: "@ + s@,
        ModelSocketError::Other(s) => s@,
        ModelSocketError::Remote { message, .. } => "remote error: "@ + message@,
    }
}

impl ModelSocketError {
    /// The human-readable text of this error.
    pub fn message(&self) -> (r: String)
        ensures
            r@ == error_message(*self),
    {
        match self {
            ModelSocketError::WebSocket(s) => concat_str("ws error: ", s.as_str()),
            ModelSocketError::Url(s) => concat_str("invalid url: ", s.as_str()),
            ModelSocketError::Json(s) => concat_str("json error: ", s.as_str()),
            ModelSocketError::Protocol(s) => concat_str("protocol error: ", s.as_str()),
            ModelSocketError::State(s) => concat_str("state error: ", s.as_str()),
            ModelSocketError::Open(s) => concat_str("open error: ", s.as_str()),
            ModelSocketError::Send => String::from_str("channel closed"),
            ModelSocketError::SeqClosed => String::from_str("seq closed"),
            ModelSocketError::Command(s) => concat_str("command error: ", s.as_str()),
            ModelSocketError::Other(s) => s.clone(),
            ModelSocketError::Remote { message, .. } => concat_str("remote error: ", message.as_str()),
        }
    }
}

/// A copy of an optional string.
pub fn clone_opt_string(o: &Option<String>) -> (r: Option<String>)
    ensures
        r == *o,
{
    match o {
        Some(s) => Some(s.clone()),
        None => None,
    }
}

/// The error the server reported, as the client hands it on.
pub fn remote_error(
    message: &String,
    code: &Option<String>,
    details: &Option<RateLimitErrorDetails>,
) -> (r: ModelSocketError)
    ensures
        r == (ModelSocketError::Remote { message: *message, code: *code, details: *details }),
{
    let details = match details {
        Some(d) => Some(d.clone()),
        None => None,
    };
    ModelSocketError::Remote { message: message.clone(), code: clone_opt_string(code), details }
}

} // verus!
