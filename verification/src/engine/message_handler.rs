//! Validation of one inbound frame.
use vstd::prelude::*;

use crate::common::message::{MessageHeader, MessageType};
use crate::common::messages::{CreateOrderMessage, CREATE_ORDER_MESSAGE_SIZE};
use crate::common::create_order::CreateOrderMessage as AcceptedOrderMessage;
use crate::engine::error::{DeserializeErrorKind, ProgramError};
use crate::engine::request::EngineRequest;

verus! {

/// zerocopy's layout check of a create-order frame, made with
/// `<[u128; 6] as FromBytes>::ref_from_bytes`: `[u128; 6]` has the frame's
/// size (96) and alignment (that of `u128`), so the same alignment and size
/// tests run, alignment first. The contract claims that an exact-size buffer
/// never fails on size, that any other size never passes, that a size error
/// means a wrong size, and that no validity error arises. Whether the
/// buffer's address is aligned is not stated.
#[verifier::external_body]
fn zerocopy_frame_cast(bytes: &[u8]) -> (r: Result<(), DeserializeErrorKind>)
    ensures
        body_cast_possible(bytes@.len(), r),
{
    match <[u128; 6] as zerocopy::FromBytes>::ref_from_bytes(bytes) {
        Ok(_) => Ok(()),
        Err(zerocopy::ConvertError::Alignment(_)) => Err(DeserializeErrorKind::Alignment),
        Err(zerocopy::ConvertError::Size(_)) => Err(DeserializeErrorKind::Size),
        Err(zerocopy::ConvertError::Validity(v)) => match v {},
    }
}

/// Outcomes of the layout check of a create-order frame of `len` bytes.
pub open spec fn body_cast_possible(len: nat, cast: Result<(), DeserializeErrorKind>) -> bool {
    match cast {
        Ok(()) => len == CREATE_ORDER_MESSAGE_SIZE,
        Err(DeserializeErrorKind::Size) => len != CREATE_ORDER_MESSAGE_SIZE,
        Err(DeserializeErrorKind::Alignment) => true,
        Err(DeserializeErrorKind::Validity) => false,
    }
}

/// The outcome of handling frame `bytes` when the layout check of its body
/// reports `cast`: too long a frame is refused, then an empty frame (no
/// header), then a header byte naming no message type, then (for create-order frames) a failed layout check or a
/// body that frames no message; anything else is accepted.
pub open spec fn spec_handle_message(
    bytes: Seq<u8>,
    max_msg_size: usize,
    cast: Result<(), DeserializeErrorKind>,
) -> Result<(), ProgramError> {
    if bytes.len() > max_msg_size {
        Err(ProgramError::MessageTooLarge { size: bytes.len() as usize, max: max_msg_size })
    } else if bytes.len() == 0 {
        Err(ProgramError::DeserializeMessageHeader(DeserializeErrorKind::Size))
    } else {
        match MessageType::spec_from_wire_byte(bytes[0]) {
            None => Err(ProgramError::DeserializeMessageHeader(DeserializeErrorKind::Validity)),
            Some(MessageType::CreateOrder) => match cast {
                Err(k) => Err(ProgramError::DeserializeMessageBody(k)),
                Ok(()) => if CreateOrderMessage::bytes_valid(bytes) {
                    Ok(())
                } else {
                    Err(ProgramError::DeserializeMessageBody(DeserializeErrorKind::Validity))
                },
            },
            Some(_) => Ok(()),
        }
    }
}

/// Every create-order message framed by the gateway and no longer than the
/// limit is accepted once it passes the layout check, and the layout check
/// can refuse it only for the buffer's alignment.
pub proof fn lemma_accepts_framed_create_order(
    m: CreateOrderMessage,
    max_msg_size: usize,
    cast: Result<(), DeserializeErrorKind>,
)
    requires
        m.header.message_type == crate::common::messages::MessageType::CreateOrder,
        max_msg_size >= CREATE_ORDER_MESSAGE_SIZE,
        body_cast_possible(m.spec_bytes().len(), cast),
    ensures
        cast is Ok ==> spec_handle_message(m.spec_bytes(), max_msg_size, cast) is Ok,
        cast is Err ==> spec_handle_message(m.spec_bytes(), max_msg_size, cast) == Err::<
            (),
            ProgramError,
        >(ProgramError::DeserializeMessageBody(DeserializeErrorKind::Alignment)),
{
    CreateOrderMessage::lemma_frame_roundtrip(m);
    assert(m.spec_bytes()[0] == 0);
}

/// Handles a frame given the outcome `cast` of its body's layout check.
pub fn handle_message_with_cast(
    bytes: &[u8],
    max_msg_size: usize,
    cast: Result<(), DeserializeErrorKind>,
) -> (r: Result<(), ProgramError>)
    requires
        body_cast_possible(bytes@.len(), cast),
    ensures
        r == spec_handle_message(bytes@, max_msg_size, cast),
{
    let header = match MessageHeader::parse(bytes, max_msg_size) {
        Ok(h) => h,
        Err(crate::common::message::MessageError::MessageTooLarge { size, max }) => {
            return Err(ProgramError::MessageTooLarge { size, max });
        },
        Err(crate::common::message::MessageError::DeserializeMessageHeader(e)) => {
            return Err(ProgramError::DeserializeMessageHeader(e));
        },
    };
    match header.message_type {
        MessageType::CreateOrder => {
            match cast {
                Err(e) => {
                    return Err(ProgramError::DeserializeMessageBody(e));
                },
                Ok(()) => {},
            }
            match CreateOrderMessage::read(bytes) {
                Some(_msg) => {},
                None => {
                    return Err(ProgramError::DeserializeMessageBody(DeserializeErrorKind::Validity));
                },
            }
        },
        _ => {},
    }
    Ok(())
}

/// The engine request a frame carries: an accepted-order frame (a
/// create-order header over an `AcceptedOrder`) becomes a new-order request
/// for that order; any other frame carries none.
pub fn request_of_frame(bytes: &[u8]) -> (r: Option<EngineRequest>)
    ensures
        r is Some <==> AcceptedOrderMessage::bytes_valid(bytes@) && bytes@[0] == 0,
        r matches Some(EngineRequest::NewOrder(o)) ==> o.spec_bytes() == bytes@.subrange(16, 96),
{
    match AcceptedOrderMessage::read(bytes) {
        Some(m) => match m.header.message_type {
            crate::common::messages::MessageType::CreateOrder => {
                proof {
                    assert(m.body.spec_bytes() =~= bytes@.subrange(16, 96));
                }
                Some(EngineRequest::NewOrder(m.body))
            },
            _ => None,
        },
        None => None,
    }
}

/// Validates one inbound frame: refuses frames longer than `max_msg_size`,
/// empty frames, frames whose header names no message type, and create-order frames that
/// fail zerocopy's layout check or whose body frames no message.
pub fn handle_message(bytes: &[u8], max_msg_size: usize) -> (r: Result<(), ProgramError>)
    ensures
        exists|cast: Result<(), DeserializeErrorKind>|
            body_cast_possible(bytes@.len(), cast) && r == spec_handle_message(
                bytes@,
                max_msg_size,
                cast,
            ),
{
    let cast = zerocopy_frame_cast(bytes);
    handle_message_with_cast(bytes, max_msg_size, cast)
}

} // verus!
