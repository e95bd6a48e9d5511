//! Frame header shared by every inbound message, and its parser.
use vstd::prelude::*;

use crate::engine::error::DeserializeErrorKind;

verus! {

/// Kind of a frame; its wire byte is its position: `CreateOrder` = 0,
/// `CancelOrder` = 1, `NewOrder` = 2.
#[derive(Debug, Clone, Copy, PartialEq, Eq, Structural)]
pub enum MessageType {
    CreateOrder,
    CancelOrder,
    NewOrder,
}

impl MessageType {
    pub open spec fn spec_wire_byte(self) -> u8 {
        match self {
            MessageType::CreateOrder => 0,
            MessageType::CancelOrder => 1,
            MessageType::NewOrder => 2,
        }
    }

    pub open spec fn spec_from_wire_byte(b: u8) -> Option<MessageType> {
        if b == 0 {
            Some(MessageType::CreateOrder)
        } else if b == 1 {
            Some(MessageType::CancelOrder)
        } else if b == 2 {
            Some(MessageType::NewOrder)
        } else {
            None
        }
    }

    pub fn wire_byte(&self) -> (b: u8)
        ensures
            b == self.spec_wire_byte(),
    {
        match self {
            MessageType::CreateOrder => 0,
            MessageType::CancelOrder => 1,
            MessageType::NewOrder => 2,
        }
    }

    pub fn from_wire_byte(b: u8) -> (r: Option<MessageType>)
        ensures
            r == Self::spec_from_wire_byte(b),
    {
        if b == 0 {
            Some(MessageType::CreateOrder)
        } else if b == 1 {
            Some(MessageType::CancelOrder)
        } else if b == 2 {
            Some(MessageType::NewOrder)
        } else {
            None
        }
    }
}

/// One-byte frame header.
#[derive(Debug, Clone, Copy, PartialEq, Eq, Structural)]
pub struct MessageHeader {
    pub message_type: MessageType,
}

/// Why a frame was refused.
#[derive(Debug, Clone, Copy, PartialEq, Eq, Structural)]
pub enum MessageError {
    MessageTooLarge { size: usize, max: usize },
    DeserializeMessageHeader(DeserializeErrorKind),
}

impl MessageHeader {
    /// Header of frame `msg`: refused when the frame is longer than
    /// `max_msg_size`, when it is too short to hold a header, or when its
    /// first byte names no message type.
    pub fn parse(msg: &[u8], max_msg_size: usize) -> (r: Result<Self, MessageError>)
        ensures
            msg@.len() > max_msg_size ==> r == Err::<Self, MessageError>(
                MessageError::MessageTooLarge { size: msg@.len() as usize, max: max_msg_size },
            ),
            msg@.len() <= max_msg_size && msg@.len() == 0 ==> r == Err::<Self, MessageError>(
                MessageError::DeserializeMessageHeader(DeserializeErrorKind::Size),
            ),
            msg@.len() <= max_msg_size && msg@.len() > 0 ==> r == match MessageType::spec_from_wire_byte(msg@[0]) {
                Some(t) => Ok::<Self, MessageError>(MessageHeader { message_type: t }),
                None => Err(MessageError::DeserializeMessageHeader(DeserializeErrorKind::Validity)),
            },
    {
        let len = msg.len();
        if len > max_msg_size {
            return Err(MessageError::MessageTooLarge { size: len, max: max_msg_size });
        }
        if len == 0 {
            return Err(MessageError::DeserializeMessageHeader(DeserializeErrorKind::Size));
        }
        match MessageType::from_wire_byte(msg[0]) {
            Some(t) => Ok(MessageHeader { message_type: t }),
            None => Err(MessageError::DeserializeMessageHeader(DeserializeErrorKind::Validity)),
        }
    }
}

} // verus!
