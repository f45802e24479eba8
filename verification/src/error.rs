//! The error taxonomy: transport and channel failures are fatal to a
//! connection, framing errors mean the byte stream cannot be resynchronised,
//! and protocol violations (an unknown call id, an unregistered method id)
//! are recoverable at the granularity of a single call.

use vstd::prelude::*;

use crate::frame::FrameError;

verus! {

/// Errors reported on the serving side of a connection.
#[derive(Debug, Clone, Copy, PartialEq, Eq, Structural)]
pub enum ServerError {
    /// I/O failure on the socket; fatal to the whole connection.
    IoError,
    /// The outbound reply queue was closed before a reply could be queued.
    ReplyChannelSendError,
    /// A per-call inbound queue was closed before a frame could be forwarded.
    RequestChannelSendError,
    /// A header could not be encoded or decoded; fatal to the connection.
    FrameError(FrameError),
    /// A continuation or close frame named a call id with no open stream.
    ServiceRecordError(),
    /// A FIRST frame named a method id that no registration covers.
    ErrorServiceMethodId(),
    /// A unary handler failed to produce its reply.
    NormalRpcMethodError(),
    /// A streaming handler failed while serving its call.
    StreamRpcMethodError(),
}

/// Errors reported on the calling side of a connection.
#[derive(Debug, Clone, Copy, PartialEq, Eq, Structural)]
pub enum ClientError {
    /// I/O failure on the socket; fatal to the whole connection.
    IoError,
    /// The outbound request queue was closed before a frame could be queued.
    RequestChannelSendError,
    /// A per-call reply queue was closed before a frame could be forwarded.
    ReplyChannelSendError,
    /// A header could not be encoded or decoded; fatal to the connection.
    FrameError(FrameError),
    /// A reply named a call id with no open stream.
    ClientRecordError(),
}

} // verus!
