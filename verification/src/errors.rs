//! Error taxonomy of the ingestion pipeline.
//!
//! `ConnectError`, `ChannelError` and `SendError` are fatal: they abort the
//! pipeline before any update arrives. `StreamError` and `HandlerError` are
//! recoverable: they concern a single message and are logged while the feed
//! continues.

use vstd::prelude::*;

verus! {

/// Failure while establishing the authenticated, transport-secured
/// connection. Fatal to the pipeline; no retry is attempted.
#[derive(Debug)]
pub enum ConnectError {
    /// The endpoint string was empty or otherwise unusable.
    MalformedEndpoint,
    /// Transport-security configuration was rejected.
    Tls { detail: String },
    /// The remote service rejected the supplied credential.
    Authentication { detail: String },
    /// The remote endpoint could not be reached.
    Unreachable { detail: String },
}

/// Failure while negotiating the bidirectional subscription channel.
/// Fatal to the pipeline.
#[derive(Debug)]
pub struct ChannelError {
    pub detail: String,
}

/// Failure while sending the one subscription request. Fatal: without a
/// successful subscription no updates will ever arrive.
#[derive(Debug)]
pub struct SendError {
    pub detail: String,
}

/// A transport- or protocol-level failure reported for a single message of
/// the update stream. Recoverable: it never terminates consumption.
#[derive(Debug)]
pub struct StreamError {
    /// Numeric status code reported by the transport.
    pub code: u32,
    /// Human-readable description of the failure.
    pub message: String,
}

/// Failure reported by a handler for a single update. Recoverable: it is
/// logged and the feed continues with the next item.
#[derive(Debug)]
pub struct HandlerError {
    pub detail: String,
}

/// A fatal, pre-stream failure of the pipeline, for the bootstrap code to
/// act on (typically by exiting).
#[derive(Debug)]
pub enum FatalError {
    Connect(ConnectError),
    Channel(ChannelError),
    Send(SendError),
}

} // verus!
