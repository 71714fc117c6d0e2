//! The wire-level message model.
//!
//! Three kinds of message travel between the client and the analysis
//! process: requests (carry an identifier and expect a response),
//! notifications (one-way, no identifier), and responses (carry the
//! identifier of the request they answer). Parameter and result payloads
//! are carried as JSON text; the client never inspects them.

use vstd::prelude::*;

verus! {

/// The protocol version tag carried by every message.
pub const PROTOCOL_VERSION: &'static str = "2.0";

/// A request: the peer is expected to answer it with a response whose
/// identifier equals `id`. The identifier is minted by the client and is
/// unique among currently outstanding requests.
#[derive(Debug)]
pub struct Request {
    /// Protocol version tag; always `PROTOCOL_VERSION` for messages the
    /// client builds.
    pub jsonrpc: String,
    /// Identifier correlating this request with its eventual response.
    pub id: u64,
    /// Name of the operation requested.
    pub method: String,
    /// Parameter payload as JSON text.
    pub params: String,
}

/// A one-way message: no identifier, and no response is ever expected.
#[derive(Debug)]
pub struct Notification {
    /// Protocol version tag.
    pub jsonrpc: String,
    /// Name of the operation announced.
    pub method: String,
    /// Parameter payload as JSON text.
    pub params: String,
}

/// An error payload carried by a response in place of a result.
#[derive(Debug)]
pub struct ResponseError {
    /// Numeric error code chosen by the peer.
    pub code: i64,
    /// Human-readable description.
    pub message: String,
    /// Additional error data as JSON text.
    pub data: String,
}

/// An answer to a prior request. Exactly one of `result` and `error` is
/// meaningful: when `error` is `Some`, the response reports an
/// application-level failure, which is a normal outcome for the caller to
/// interpret, not a transport fault.
#[derive(Debug)]
pub struct Response {
    /// Protocol version tag.
    pub jsonrpc: String,
    /// Identifier of the request this response answers.
    pub id: u64,
    /// Result payload as JSON text.
    pub result: String,
    /// Error payload, if the peer reports a failure instead of a result.
    pub error: Option<ResponseError>,
}

/// A keypress, as decoded from the terminal's input bytes.
#[derive(Clone, Copy, Debug, PartialEq, Eq, Structural)]
pub enum KeyPress {
    BackSpace,
    CarriageReturn,
    LineFeed,
    Delete,
    CursorUp,
    CursorDown,
    CursorForward,
    CursorBack,
    Control(char),
    Character(char),
}

/// One occurrence on the editor's event queue: a keypress from the
/// terminal, or a notification routed from the analysis process.
#[derive(Debug)]
pub enum Event {
    KeyPress(KeyPress),
    LanguageNotification(Notification),
}

/// A message sent by the client.
#[derive(Debug)]
pub enum ClientMessage {
    Request(Request),
    Notification(Notification),
}

/// A message received from the peer. Telling the two apart is structural:
/// an identifier without a method marks a response; a method marks a
/// notification. The schema guarantees no message is both.
#[derive(Debug)]
pub enum ServerMessage {
    Response(Response),
    Notification(Notification),
}

impl Request {
    /// Builds a request carrying the standard protocol version tag.
    /// The identifier is chosen by the caller; the client facade mints
    /// them from a monotonic counter.
    pub fn new(id: u64, method: &str, params: &str) -> (r: Request)
        ensures
            r.jsonrpc@ == PROTOCOL_VERSION@,
            r.id == id,
            r.method@ == method@,
            r.params@ == params@,
    {
        Request {
            jsonrpc: String::from_str(PROTOCOL_VERSION),
            id,
            method: String::from_str(method),
            params: String::from_str(params),
        }
    }
}

impl Notification {
    /// Builds a notification carrying the standard protocol version tag.
    pub fn new(method: &str, params: &str) -> (r: Notification)
        ensures
            r.jsonrpc@ == PROTOCOL_VERSION@,
            r.method@ == method@,
            r.params@ == params@,
    {
        Notification {
            jsonrpc: String::from_str(PROTOCOL_VERSION),
            method: String::from_str(method),
            params: String::from_str(params),
        }
    }
}

} // verus!
