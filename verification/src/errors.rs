//! The typed error surfaced by the connectivity engine.

use vstd::prelude::*;

verus! {

/// Error kinds of the engine.
///
/// Transport- and stream-level failures (`RequestError`, `WebSocketError`)
/// are recoverable through the reconnect/backoff machinery; `ExchangeError`
/// carries the venue's non-zero status with its semicolon-joined messages;
/// `Unknown` marks a protocol invariant violation (a success envelope
/// without data) that is surfaced rather than silently defaulted.
#[derive(Debug, Clone)]
pub enum GmocoinError {
    RequestError(String),
    WebSocketError(String),
    ParseError(String),
    AuthError(String),
    ExchangeError { status: i32, messages: String },
    Unknown(String),
}

impl GmocoinError {
    /// True of the errors that the streaming clients recover from by
    /// backing off and reconnecting; venue rejections and protocol
    /// violations are surfaced to the caller instead.
    pub fn is_recoverable(&self) -> (r: bool)
        ensures
            r == (self is RequestError || self is WebSocketError || self is AuthError),
    {
        match self {
            GmocoinError::RequestError(_) => true,
            GmocoinError::WebSocketError(_) => true,
            GmocoinError::AuthError(_) => true,
            _ => false,
        }
    }
}

} // verus!
