//! What ends a session attempt or a session.
use vstd::prelude::*;

use crate::handshake::HandshakeRejectReason;
use crate::message::RpcRequest;

verus! {

/// Why the handshake at the start of a session failed.
#[derive(Debug, Clone, Copy, PartialEq, Eq, Structural)]
pub enum HandshakeError {
    /// One side turned the session down.
    Rejected(HandshakeRejectReason),
    /// The handshake did not finish in time.
    TimedOut,
    /// A handshake message did not decode.
    Malformed,
    /// The substream failed or closed during the handshake.
    Io,
}

/// Errors of the RPC server.
#[derive(Debug)]
pub enum RpcServerError {
    /// An inbound message did not decode.
    DecodeError,
    /// An inbound frame was larger than the frame limit.
    FrameTooLarge,
    /// Reading from or writing to the substream failed.
    Io,
    /// Every session permit is taken.
    MaximumSessionsReached,
    /// The handshake failed.
    HandshakeError(HandshakeError),
    /// No service answers for the requested protocol.
    ProtocolServiceNotFound,
    /// The service did not answer within the client's deadline.
    ServiceCallExceededDeadline,
    /// The next message of a response body did not come within the deadline.
    ReadStreamExceededDeadline,
    /// The client sent `FIN` while a response was streaming.
    ClientInterruptedStream,
    /// The client sent a request while a response was streaming.
    UnexpectedIncomingMessage(RpcRequest),
    /// The client sent an undecodable message while a response was streaming.
    UnexpectedIncomingMessageMalformed,
    /// The client closed the substream while a response was streaming.
    StreamClosedByRemote,
}

impl RpcServerError {
    /// Whether the error came from the handshake.
    pub fn is_handshake_error(&self) -> (r: bool)
        ensures
            r <==> self is HandshakeError,
    {
        match self {
            RpcServerError::HandshakeError(_) => true,
            _ => false,
        }
    }
}

} // verus!
