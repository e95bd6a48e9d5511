//! Create-order frames carrying an `OrderDTO`.
use vstd::prelude::*;

use crate::common::dto::{OrderDTO, ORDER_DTO_SIZE};

verus! {

/// Size of a `CreateOrderMessage` frame in bytes.
pub const CREATE_ORDER_MESSAGE_SIZE: usize = 96;

/// Body of a create-order frame.
pub struct CreateOrder {
    pub order: OrderDTO,
}

impl CreateOrder {
    pub fn new(order: OrderDTO) -> (r: Self)
        ensures
            r.order == order,
    {
        Self { order }
    }
}

/// Kind of a create-order frame; its wire byte is its position.
#[derive(Debug, Clone, Copy, PartialEq, Eq, Structural)]
pub enum MessageType {
    CreateOrder,
    CancelOrder,
}

impl MessageType {
    pub open spec fn spec_wire_byte(self) -> u8 {
        match self {
            MessageType::CreateOrder => 0,
            MessageType::CancelOrder => 1,
        }
    }

    pub open spec fn spec_from_wire_byte(b: u8) -> Option<MessageType> {
        if b == 0 {
            Some(MessageType::CreateOrder)
        } else if b == 1 {
            Some(MessageType::CancelOrder)
        } else {
            None
        }
    }

    pub fn wire_byte(&self) -> (b: u8)
        ensures
            b == self.spec_wire_byte(),
    {
        match self {
            MessageType::CreateOrder => 0,
            MessageType::CancelOrder => 1,
        }
    }

    pub fn from_wire_byte(b: u8) -> (r: Option<MessageType>)
        ensures
            r == Self::spec_from_wire_byte(b),
    {
        if b == 0 {
            Some(MessageType::CreateOrder)
        } else if b == 1 {
            Some(MessageType::CancelOrder)
        } else {
            None
        }
    }
}

/// One-byte header of a create-order frame.
#[derive(Debug, Clone, Copy, PartialEq, Eq, Structural)]
pub struct MessageHeader {
    pub message_type: MessageType,
}

/// A create-order frame (96 bytes): header byte @0, 15 padding bytes @1,
/// the `OrderDTO` frame @16.
pub struct CreateOrderMessage {
    pub header: MessageHeader,
    pub _padding: [u8; 15],
    pub body: CreateOrder,
}

/// The frame carrying `dto`: a create-order header and zeroed padding.
pub fn create_order(dto: OrderDTO) -> (m: CreateOrderMessage)
    ensures
        m.header.message_type == MessageType::CreateOrder,
        m._padding@ == Seq::new(15, |i: int| 0u8),
        m.body.order == dto,
{
    let m = CreateOrderMessage {
        header: MessageHeader { message_type: MessageType::CreateOrder },
        _padding: [0u8; 15],
        body: CreateOrder::new(dto),
    };
    assert(m._padding@ =~= Seq::new(15, |i: int| 0u8));
    m
}

impl CreateOrderMessage {

    /// The side byte of the carried order sits at 86: 1 for a Buy, 0xFF
    /// (the `i8` -1) for a Sell, 0 for an unset side.
    pub proof fn lemma_side_byte(m: Self)
        ensures
            m.spec_bytes()[86] == (if m.body.order.side is Buy {
                1u8
            } else if m.body.order.side is Sell {
                0xFFu8
            } else {
                0u8
            }),
    {
        OrderDTO::lemma_bytes_valid(m.body.order);
        OrderDTO::lemma_side_byte(m.body.order);
        assert(m.spec_bytes()[86] == m.body.order.spec_bytes()[70]);
    }
    /// Bytes of the frame.
    pub open spec fn spec_bytes(self) -> Seq<u8> {
        seq![self.header.message_type.spec_wire_byte()] + self._padding@
            + self.body.order.spec_bytes()
    }

    /// `b` is the frame of some create-order message: 96 bytes, a header byte
    /// naming a message type, and a valid order frame at offset 16.
    pub open spec fn bytes_valid(b: Seq<u8>) -> bool {
        &&& b.len() == CREATE_ORDER_MESSAGE_SIZE
        &&& MessageType::spec_from_wire_byte(b[0]) is Some
        &&& OrderDTO::bytes_valid(b.subrange(16, 96))
    }

    /// The frame as bytes.
    pub fn to_bytes(&self) -> (r: Vec<u8>)
        ensures
            r@ == self.spec_bytes(),
    {
        let mut out: Vec<u8> = Vec::new();
        out.push(self.header.message_type.wire_byte());
        let mut i: usize = 0;
        while i < 15
            invariant
                i <= 15,
                out@ == seq![self.header.message_type.spec_wire_byte()] + self._padding@.take(
                    i as int,
                ),
            decreases 15 - i,
        {
            out.push(self._padding[i]);
            i = i + 1;
            assert(out@ =~= seq![self.header.message_type.spec_wire_byte()]
                + self._padding@.take(i as int));
        }
        assert(self._padding@.take(15) =~= self._padding@);
        self.body.order.write_bytes(&mut out);
        out
    }

    /// The message framed by `bytes`, or `None` when they frame none.
    pub fn read(bytes: &[u8]) -> (r: Option<Self>)
        ensures
            r is Some <==> Self::bytes_valid(bytes@),
            r matches Some(m) ==> m.spec_bytes() == bytes@,
    {
        if bytes.len() != CREATE_ORDER_MESSAGE_SIZE {
            return None;
        }
        let message_type = match MessageType::from_wire_byte(bytes[0]) {
            Some(t) => t,
            None => {
                return None;
            },
        };
        let order = match OrderDTO::read_at(bytes, 16) {
            Some(o) => o,
            None => {
                return None;
            },
        };
        let m = CreateOrderMessage {
            header: MessageHeader { message_type },
            _padding: [
                bytes[1],
                bytes[2],
                bytes[3],
                bytes[4],
                bytes[5],
                bytes[6],
                bytes[7],
                bytes[8],
                bytes[9],
                bytes[10],
                bytes[11],
                bytes[12],
                bytes[13],
                bytes[14],
                bytes[15],
            ],
            body: CreateOrder { order },
        };
        assert(m.spec_bytes() =~= bytes@);
        Some(m)
    }

    /// Every message's frame is valid, and no other message has that frame.
    pub proof fn lemma_frame_roundtrip(m: Self)
        ensures
            Self::bytes_valid(m.spec_bytes()),
            forall|x: Self| #[trigger] x.spec_bytes() == m.spec_bytes() ==> x == m,
    {
        let s = m.spec_bytes();
        OrderDTO::lemma_bytes_valid(m.body.order);
        assert(s.subrange(16, 96) =~= m.body.order.spec_bytes());
        assert forall|x: Self| #[trigger] x.spec_bytes() == m.spec_bytes() implies x == m by {
            OrderDTO::lemma_bytes_valid(x.body.order);
            assert(x.body.order.spec_bytes() =~= s.subrange(16, 96));
            OrderDTO::lemma_bytes_injective(x.body.order, m.body.order);
            assert(x._padding@ =~= s.subrange(1, 16));
            assert(m._padding@ =~= s.subrange(1, 16));
            assert(x._padding =~= m._padding);
            assert(x.header.message_type.spec_wire_byte() == s[0]);
        }
    }
}

} // verus!
