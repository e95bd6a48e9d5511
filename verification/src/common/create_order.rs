//! Accepted-order frames sent from order management to the engine.
use vstd::prelude::*;

use crate::common::messages::{MessageHeader, MessageType};
use crate::common::models::{OrderSide, OrderType};
use crate::common::types::{ClientId, OrderId, TickerId};
use crate::common::wire::{
    get_le, le_bytes, lemma_le_bytes_len, lemma_le_roundtrip, lemma_le_value_bound,
    lemma_le_value_encodes, lemma_pow256_values, put_le,
};

verus! {

/// Size of an `AcceptedOrder` frame in bytes.
pub const ACCEPTED_ORDER_SIZE: usize = 80;

/// Size of a `CreateOrderMessage` frame carrying an accepted order.
pub const ACCEPTED_ORDER_MESSAGE_SIZE: usize = 96;

/// An order after validation, with the id assigned to it (80 bytes on the
/// wire: price @0, quantity @16, timestamp @32, client_order_id @40,
/// market_order_id @48, client_id @56, ticker_id @60, side @64,
/// order_type @65, 14 padding bytes @66).
#[derive(Clone, Copy)]
pub struct AcceptedOrder {
    pub price: u128,
    pub quantity: u128,
    pub timestamp: u64,
    pub client_order_id: OrderId,
    pub market_order_id: OrderId,
    pub client_id: ClientId,
    pub ticker_id: TickerId,
    pub side: OrderSide,
    pub order_type: OrderType,
    pub _padding: [u8; 14],
}

impl AcceptedOrder {
    pub fn new(
        price: u128,
        quantity: u128,
        timestamp: u64,
        client_order_id: OrderId,
        market_order_id: OrderId,
        client_id: ClientId,
        ticker_id: TickerId,
        side: OrderSide,
        order_type: OrderType,
    ) -> (r: Self)
        ensures
            r.price == price,
            r.quantity == quantity,
            r.timestamp == timestamp,
            r.client_order_id == client_order_id,
            r.market_order_id == market_order_id,
            r.client_id == client_id,
            r.ticker_id == ticker_id,
            r.side == side,
            r.order_type == order_type,
            r._padding@ == Seq::new(14, |i: int| 0u8),
    {
        let r = Self {
            price,
            quantity,
            timestamp,
            client_order_id,
            market_order_id,
            client_id,
            ticker_id,
            side,
            order_type,
            _padding: [0u8; 14],
        };
        assert(r._padding@ =~= Seq::new(14, |i: int| 0u8));
        r
    }

    /// Bytes of the frame.
    pub open spec fn spec_bytes(self) -> Seq<u8> {
        le_bytes(self.price as nat, 16) + le_bytes(self.quantity as nat, 16) + le_bytes(
            self.timestamp as nat,
            8,
        ) + le_bytes(self.client_order_id as nat, 8) + le_bytes(self.market_order_id as nat, 8)
            + le_bytes(self.client_id as nat, 4) + le_bytes(self.ticker_id as nat, 4) + seq![
            self.side.spec_wire_byte(),
            self.order_type.spec_wire_byte(),
        ] + self._padding@
    }

    /// `b` frames some order: 80 bytes whose side and type bytes name values.
    pub open spec fn bytes_valid(b: Seq<u8>) -> bool {
        &&& b.len() == ACCEPTED_ORDER_SIZE
        &&& OrderSide::spec_from_wire_byte(b[64]) is Some
        &&& OrderType::spec_from_wire_byte(b[65]) is Some
    }

    /// Appends the frame of this order to `out`.
    pub fn write_bytes(&self, out: &mut Vec<u8>)
        ensures
            final(out)@ == old(out)@ + self.spec_bytes(),
    {
        let ghost start = out@;
        put_le(out, self.price, 16);
        put_le(out, self.quantity, 16);
        put_le(out, self.timestamp as u128, 8);
        put_le(out, self.client_order_id as u128, 8);
        put_le(out, self.market_order_id as u128, 8);
        put_le(out, self.client_id as u128, 4);
        put_le(out, self.ticker_id as u128, 4);
        out.push(self.side.wire_byte());
        out.push(self.order_type.wire_byte());
        let mut i: usize = 0;
        let ghost mid = out@;
        while i < 14
            invariant
                i <= 14,
                out@ == mid + self._padding@.take(i as int),
            decreases 14 - i,
        {
            out.push(self._padding[i]);
            i = i + 1;
            assert(out@ =~= mid + self._padding@.take(i as int));
        }
        assert(self._padding@.take(14) =~= self._padding@);
        assert(out@ =~= start + self.spec_bytes());
    }

    /// The order framed by the 80 bytes at `off`, or `None`.
    pub fn read_at(bytes: &[u8], off: usize) -> (r: Option<Self>)
        requires
            off + ACCEPTED_ORDER_SIZE <= bytes@.len(),
        ensures
            r is Some <==> Self::bytes_valid(bytes@.subrange(off as int, off + ACCEPTED_ORDER_SIZE)),
            r matches Some(x) ==> x.spec_bytes() == bytes@.subrange(off as int, off + ACCEPTED_ORDER_SIZE),
    {
        let ghost b = bytes@.subrange(off as int, off + ACCEPTED_ORDER_SIZE);
        let _len = bytes.len();
        let side = OrderSide::from_wire_byte(bytes[off + 64]);
        let order_type = OrderType::from_wire_byte(bytes[off + 65]);
        match (side, order_type) {
            (Some(side), Some(order_type)) => {
                let price = get_le(bytes, off, 16);
                let quantity = get_le(bytes, off + 16, 16);
                let timestamp = get_le(bytes, off + 32, 8);
                let client_order_id = get_le(bytes, off + 40, 8);
                let market_order_id = get_le(bytes, off + 48, 8);
                let client_id = get_le(bytes, off + 56, 4);
                let ticker_id = get_le(bytes, off + 60, 4);
                proof {
                    lemma_pow256_values();
                    lemma_le_value_bound(bytes@.subrange(off + 32, off + 40));
                    lemma_le_value_bound(bytes@.subrange(off + 40, off + 48));
                    lemma_le_value_bound(bytes@.subrange(off + 48, off + 56));
                    lemma_le_value_bound(bytes@.subrange(off + 56, off + 60));
                    lemma_le_value_bound(bytes@.subrange(off + 60, off + 64));
                }
                let p = off + 66;
                let x = Self {
                    price,
                    quantity,
                    timestamp: timestamp as u64,
                    client_order_id: client_order_id as u64,
                    market_order_id: market_order_id as u64,
                    client_id: client_id as u32,
                    ticker_id: ticker_id as u32,
                    side,
                    order_type,
                    _padding: [
                        bytes[p],
                        bytes[p + 1],
                        bytes[p + 2],
                        bytes[p + 3],
                        bytes[p + 4],
                        bytes[p + 5],
                        bytes[p + 6],
                        bytes[p + 7],
                        bytes[p + 8],
                        bytes[p + 9],
                        bytes[p + 10],
                        bytes[p + 11],
                        bytes[p + 12],
                        bytes[p + 13],
                    ],
                };
                proof {
                    lemma_le_value_encodes(bytes@.subrange(off as int, off + 16));
                    lemma_le_value_encodes(bytes@.subrange(off + 16, off + 32));
                    lemma_le_value_encodes(bytes@.subrange(off + 32, off + 40));
                    lemma_le_value_encodes(bytes@.subrange(off + 40, off + 48));
                    lemma_le_value_encodes(bytes@.subrange(off + 48, off + 56));
                    lemma_le_value_encodes(bytes@.subrange(off + 56, off + 60));
                    lemma_le_value_encodes(bytes@.subrange(off + 60, off + 64));
                    assert(x._padding@ =~= bytes@.subrange(off + 66, off + 80));
                    assert(x.spec_bytes() =~= b);
                }
                Some(x)
            },
            _ => None,
        }
    }

    /// The frame of an order is valid.
    pub proof fn lemma_bytes_valid(a: Self)
        ensures
            Self::bytes_valid(a.spec_bytes()),
    {
        lemma_le_bytes_len(a.price as nat, 16);
        lemma_le_bytes_len(a.quantity as nat, 16);
        lemma_le_bytes_len(a.timestamp as nat, 8);
        lemma_le_bytes_len(a.client_order_id as nat, 8);
        lemma_le_bytes_len(a.market_order_id as nat, 8);
        lemma_le_bytes_len(a.client_id as nat, 4);
        lemma_le_bytes_len(a.ticker_id as nat, 4);
        let s = a.spec_bytes();
        assert(s[64] == a.side.spec_wire_byte());
        assert(s[65] == a.order_type.spec_wire_byte());
    }

    /// In every frame the side byte (@64) is 1 for a Buy, 0xFF (the `i8`
    /// -1) for a Sell and 0 for an unset side.
    pub proof fn lemma_side_byte(a: Self)
        ensures
            a.spec_bytes()[64] == (if a.side is Buy {
                1u8
            } else if a.side is Sell {
                0xFFu8
            } else {
                0u8
            }),
    {
        lemma_le_bytes_len(a.price as nat, 16);
        lemma_le_bytes_len(a.quantity as nat, 16);
        lemma_le_bytes_len(a.timestamp as nat, 8);
        lemma_le_bytes_len(a.client_order_id as nat, 8);
        lemma_le_bytes_len(a.market_order_id as nat, 8);
        lemma_le_bytes_len(a.client_id as nat, 4);
        lemma_le_bytes_len(a.ticker_id as nat, 4);
        assert(a.spec_bytes()[64] == a.side.spec_wire_byte());
    }

    /// Equal frames come from equal orders.
    pub proof fn lemma_bytes_injective(a: Self, b: Self)
        requires
            a.spec_bytes() == b.spec_bytes(),
        ensures
            a == b,
    {
        lemma_pow256_values();
        let s = a.spec_bytes();
        lemma_le_roundtrip(a.price as nat, 16);
        lemma_le_roundtrip(a.quantity as nat, 16);
        lemma_le_roundtrip(a.timestamp as nat, 8);
        lemma_le_roundtrip(a.client_order_id as nat, 8);
        lemma_le_roundtrip(a.market_order_id as nat, 8);
        lemma_le_roundtrip(a.client_id as nat, 4);
        lemma_le_roundtrip(a.ticker_id as nat, 4);
        lemma_le_roundtrip(b.price as nat, 16);
        lemma_le_roundtrip(b.quantity as nat, 16);
        lemma_le_roundtrip(b.timestamp as nat, 8);
        lemma_le_roundtrip(b.client_order_id as nat, 8);
        lemma_le_roundtrip(b.market_order_id as nat, 8);
        lemma_le_roundtrip(b.client_id as nat, 4);
        lemma_le_roundtrip(b.ticker_id as nat, 4);
        assert(le_bytes(a.price as nat, 16) == s.subrange(0, 16));
        assert(le_bytes(b.price as nat, 16) == s.subrange(0, 16));
        assert(le_bytes(a.quantity as nat, 16) == s.subrange(16, 32));
        assert(le_bytes(b.quantity as nat, 16) == s.subrange(16, 32));
        assert(le_bytes(a.timestamp as nat, 8) == s.subrange(32, 40));
        assert(le_bytes(b.timestamp as nat, 8) == s.subrange(32, 40));
        assert(le_bytes(a.client_order_id as nat, 8) == s.subrange(40, 48));
        assert(le_bytes(b.client_order_id as nat, 8) == s.subrange(40, 48));
        assert(le_bytes(a.market_order_id as nat, 8) == s.subrange(48, 56));
        assert(le_bytes(b.market_order_id as nat, 8) == s.subrange(48, 56));
        assert(le_bytes(a.client_id as nat, 4) == s.subrange(56, 60));
        assert(le_bytes(b.client_id as nat, 4) == s.subrange(56, 60));
        assert(le_bytes(a.ticker_id as nat, 4) == s.subrange(60, 64));
        assert(le_bytes(b.ticker_id as nat, 4) == s.subrange(60, 64));
        assert(s[64] == a.side.spec_wire_byte() && s[64] == b.side.spec_wire_byte());
        assert(s[65] == a.order_type.spec_wire_byte() && s[65] == b.order_type.spec_wire_byte());
        assert(a._padding@ =~= s.subrange(66, 80));
        assert(b._padding@ =~= s.subrange(66, 80));
        assert(a._padding =~= b._padding);
    }
}

/// A create-order frame carrying an accepted order after a header byte and
/// 15 padding bytes.
pub struct CreateOrderMessage {
    pub header: MessageHeader,
    pub _padding: [u8; 15],
    pub body: AcceptedOrder,
}

impl From<CreateOrderMessage> for AcceptedOrder {
    fn from(value: CreateOrderMessage) -> (r: Self)
        ensures
            r == value.body,
    {
        value.body
    }
}

impl vstd::std_specs::convert::FromSpecImpl<CreateOrderMessage> for AcceptedOrder {
    open spec fn obeys_from_spec() -> bool {
        true
    }

    open spec fn from_spec(v: CreateOrderMessage) -> Self {
        v.body
    }
}

impl CreateOrderMessage {

    /// The side byte of the carried order sits at 80: 1 for a Buy, 0xFF
    /// (the `i8` -1) for a Sell, 0 for an unset side.
    pub proof fn lemma_side_byte(m: Self)
        ensures
            m.spec_bytes()[80] == (if m.body.side is Buy {
                1u8
            } else if m.body.side is Sell {
                0xFFu8
            } else {
                0u8
            }),
    {
        AcceptedOrder::lemma_bytes_valid(m.body);
        AcceptedOrder::lemma_side_byte(m.body);
        assert(m.spec_bytes()[80] == m.body.spec_bytes()[64]);
    }
    /// The frame carrying `order`: a create-order header and zeroed padding.
    pub fn new(order: AcceptedOrder) -> (m: Self)
        ensures
            m.header.message_type == MessageType::CreateOrder,
            m._padding@ == Seq::new(15, |i: int| 0u8),
            m.body == order,
    {
        let m = Self {
            header: MessageHeader { message_type: MessageType::CreateOrder },
            _padding: [0u8; 15],
            body: order,
        };
        assert(m._padding@ =~= Seq::new(15, |i: int| 0u8));
        m
    }

    /// Bytes of the frame: header byte, 15 padding bytes, the order's frame.
    pub open spec fn spec_bytes(self) -> Seq<u8> {
        seq![self.header.message_type.spec_wire_byte()] + self._padding@ + self.body.spec_bytes()
    }

    /// `b` frames some message carrying an accepted order.
    pub open spec fn bytes_valid(b: Seq<u8>) -> bool {
        &&& b.len() == ACCEPTED_ORDER_MESSAGE_SIZE
        &&& MessageType::spec_from_wire_byte(b[0]) is Some
        &&& AcceptedOrder::bytes_valid(b.subrange(16, 96))
    }

    /// The frame as bytes.
    pub fn to_bytes(&self) -> (r: Vec<u8>)
        ensures
            r@ == self.spec_bytes(),
    {
        let mut out: Vec<u8> = Vec::new();
        out.push(self.header.message_type.wire_byte());
        let mut i: usize = 0;
        while i < 15
            invariant
                i <= 15,
                out@ == seq![self.header.message_type.spec_wire_byte()] + self._padding@.take(
                    i as int,
                ),
            decreases 15 - i,
        {
            out.push(self._padding[i]);
            i = i + 1;
            assert(out@ =~= seq![self.header.message_type.spec_wire_byte()]
                + self._padding@.take(i as int));
        }
        assert(self._padding@.take(15) =~= self._padding@);
        self.body.write_bytes(&mut out);
        out
    }

    /// The message framed by `bytes`, or `None` when they frame none.
    pub fn read(bytes: &[u8]) -> (r: Option<Self>)
        ensures
            r is Some <==> Self::bytes_valid(bytes@),
            r matches Some(m) ==> m.spec_bytes() == bytes@,
    {
        if bytes.len() != ACCEPTED_ORDER_MESSAGE_SIZE {
            return None;
        }
        let message_type = match MessageType::from_wire_byte(bytes[0]) {
            Some(t) => t,
            None => {
                return None;
            },
        };
        let body = match AcceptedOrder::read_at(bytes, 16) {
            Some(o) => o,
            None => {
                return None;
            },
        };
        let m = CreateOrderMessage {
            header: MessageHeader { message_type },
            _padding: [
                bytes[1],
                bytes[2],
                bytes[3],
                bytes[4],
                bytes[5],
                bytes[6],
                bytes[7],
                bytes[8],
                bytes[9],
                bytes[10],
                bytes[11],
                bytes[12],
                bytes[13],
                bytes[14],
                bytes[15],
            ],
            body,
        };
        assert(m.spec_bytes() =~= bytes@);
        Some(m)
    }

    /// Every message's frame is valid, and no other message has that frame.
    #[verifier::spinoff_prover]
    #[verifier::rlimit(60)]
    pub proof fn lemma_frame_roundtrip(m: Self)
        ensures
            Self::bytes_valid(m.spec_bytes()),
            forall|x: Self| #[trigger] x.spec_bytes() == m.spec_bytes() ==> x == m,
    {
        let s = m.spec_bytes();
        AcceptedOrder::lemma_bytes_valid(m.body);
        assert(s.subrange(16, 96) =~= m.body.spec_bytes());
        assert forall|x: Self| #[trigger] x.spec_bytes() == m.spec_bytes() implies x == m by {
            AcceptedOrder::lemma_bytes_valid(x.body);
            assert(x.body.spec_bytes() =~= s.subrange(16, 96));
            AcceptedOrder::lemma_bytes_injective(x.body, m.body);
            assert(x._padding@ =~= s.subrange(1, 16));
            assert(m._padding@ =~= s.subrange(1, 16));
            assert(x._padding =~= m._padding);
            assert(x.header.message_type.spec_wire_byte() == s[0]);
        }
    }
}

} // verus!
