//! The kinds of failure the client distinguishes.

use vstd::prelude::*;

verus! {

/// What went wrong, by how far the failure reaches.
#[derive(Clone, Copy, Debug, PartialEq, Eq, Structural)]
pub enum ClientError {
    /// A frame was malformed or unknown. The frame is dropped.
    ProtocolError,
    /// The signaling channel closed or failed. Fatal to the session.
    ChannelError,
    /// An expected acknowledgement did not arrive in time.
    AckTimeout,
    /// The engine rejected an offer, an answer or a candidate. The peer fails;
    /// nothing else does.
    NegotiationError,
    /// A capture or playback device is unavailable.
    DeviceError,
}

impl ClientError {
    /// Whether the failure ends the whole session rather than one frame, one
    /// peer or one direction of media.
    pub open spec fn fatal(self) -> bool {
        self == ClientError::ChannelError || self == ClientError::AckTimeout
    }

    /// The words in which the failure is reported to the operator.
    pub open spec fn words(self) -> Seq<char> {
        match self {
            ClientError::ProtocolError => "Malformed or unexpected frame"@,
            ClientError::ChannelError => "Signaling channel closed"@,
            ClientError::AckTimeout => "Ack not received"@,
            ClientError::NegotiationError => "Negotiation failed"@,
            ClientError::DeviceError => "Audio device unavailable"@,
        }
    }

    /// The words in which the failure is reported to the operator.
    pub fn message(&self) -> (text: &'static str)
        ensures
            text@ == self.words(),
    {
        match self {
            ClientError::ProtocolError => "Malformed or unexpected frame",
            ClientError::ChannelError => "Signaling channel closed",
            ClientError::AckTimeout => "Ack not received",
            ClientError::NegotiationError => "Negotiation failed",
            ClientError::DeviceError => "Audio device unavailable",
        }
    }

    /// Whether the failure ends the whole session.
    pub fn is_fatal(&self) -> (r: bool)
        ensures
            r == self.fatal(),
    {
        match self {
            ClientError::ChannelError => true,
            ClientError::AckTimeout => true,
            _ => false,
        }
    }
}

} // verus!
