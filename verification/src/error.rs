//! The ways in which a connection, or one call on it, can fail.

use crate::frame::FrameDecodeError;
use vstd::prelude::*;

verus! {

/// A failure of the stack. Every kind but `InvalidState`,
/// `ProtocolViolation`, `PayloadTooLarge` and an inner-protocol
/// `NoAgreement` ends the connection.
#[derive(Debug, Clone, Copy, PartialEq, Eq, Structural)]
pub enum StackError {
    /// The underlying byte transport failed.
    Transport,
    /// The peer's first line was not the multistream header.
    UnsupportedNegotiation,
    /// The responder turned down every proposal.
    NoAgreement,
    /// A step of the Noise handshake failed.
    HandshakeFailed,
    /// The secure session is closed.
    SessionTerminated,
    /// A record from the peer is not a frame.
    FrameDecode(FrameDecodeError),
    /// The call does not fit the state of the stream it names.
    InvalidState,
    /// The peer sent a frame that breaks the stream rules.
    ProtocolViolation,
    /// The agreed protocol is known but not provided.
    NotImplemented,
    /// The payload does not fit in one frame of one record.
    PayloadTooLarge,
}

impl StackError {
    /// Whether the connection is over once this failure has been seen.
    pub open spec fn spec_is_fatal(self) -> bool {
        !(self is InvalidState || self is ProtocolViolation || self is PayloadTooLarge)
    }

    /// Whether the connection is over once this failure has been seen.
    pub fn is_fatal(&self) -> (fatal: bool)
        ensures
            fatal == self.spec_is_fatal(),
    {
        match self {
            StackError::InvalidState | StackError::ProtocolViolation | StackError::PayloadTooLarge => false,
            _ => true,
        }
    }
}

} // verus!
