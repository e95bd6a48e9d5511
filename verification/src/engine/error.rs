//! Errors of the engine's inbound path.
use vstd::prelude::*;

use crate::common::queue::QueueSendError;
use crate::engine::request::EngineRequest;
use crate::transport::PollError;

verus! {

#[verifier::external_type_specification]
#[verifier::external_body]
pub struct ExIoError(std::io::Error);

/// Why a frame could not be viewed as a typed message.
#[derive(Debug, Clone, Copy, PartialEq, Eq, Structural)]
pub enum DeserializeErrorKind {
    Alignment,
    Size,
    Validity,
}

/// Failures of the engine's inbound path.
pub enum ProgramError {
    InvalidInterface,
    InvalidMulticastGroup,
    Socket(std::io::Error),
    MessageTooLarge { size: usize, max: usize },
    DeserializeMessageHeader(DeserializeErrorKind),
    DeserializeMessageBody(DeserializeErrorKind),
    TransportSubsriptionError(PollError),
    TransportDisconnected,
    QueuePushError(QueueSendError<EngineRequest>),
}

impl ProgramError {
    /// Human-readable description of the failure's kind.
    pub fn display_text(&self) -> (s: &'static str)
        ensures
            s@ == (match self {
                ProgramError::InvalidInterface => "Invalid interface address"@,
                ProgramError::InvalidMulticastGroup => "Invalid multicast group"@,
                ProgramError::Socket(_) => "Socket error"@,
                ProgramError::MessageTooLarge { .. } => "Message too large"@,
                ProgramError::DeserializeMessageHeader(_) => "Failed to Deserialize Message Header"@,
                ProgramError::DeserializeMessageBody(_) => "Failed to Deserialize Message Body"@,
                ProgramError::TransportSubsriptionError(_) => "Failed to subscribe to transport"@,
                ProgramError::TransportDisconnected => "transport disconnected"@,
                ProgramError::QueuePushError(_) => "Queue push error"@,
            }),
    {
        match self {
            ProgramError::InvalidInterface => "Invalid interface address",
            ProgramError::InvalidMulticastGroup => "Invalid multicast group",
            ProgramError::Socket(_) => "Socket error",
            ProgramError::MessageTooLarge { .. } => "Message too large",
            ProgramError::DeserializeMessageHeader(_) => "Failed to Deserialize Message Header",
            ProgramError::DeserializeMessageBody(_) => "Failed to Deserialize Message Body",
            ProgramError::TransportSubsriptionError(_) => "Failed to subscribe to transport",
            ProgramError::TransportDisconnected => "transport disconnected",
            ProgramError::QueuePushError(_) => "Queue push error",
        }
    }
}

} // verus!
