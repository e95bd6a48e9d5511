//! The order record that travels inside create-order frames.
use vstd::prelude::*;

use crate::common::models::{OrderSide, OrderStatus, OrderType};
use crate::common::wire::{
    get_le, le_bytes, le_value, lemma_le_roundtrip, lemma_le_value_encodes, lemma_pow256_values,
    put_le,
};

verus! {

/// Size of an `OrderDTO` frame in bytes.
pub const ORDER_DTO_SIZE: usize = 80;

/// An order as laid out on the wire (80 bytes, little-endian):
/// price @0 (16), quantity @16 (16), filled_quantity @32 (16),
/// timestamp @48 (8), market_id @56 (4), order_id @60 (4), user_id @64 (4),
/// order_type @68, order_status @69, side @70, 9 padding bytes @71.
pub struct OrderDTO {
    pub price: u128,
    pub quantity: u128,
    pub filled_quantity: u128,
    pub timestamp: u64,
    pub market_id: u32,
    pub order_id: u32,
    pub user_id: u32,
    pub order_type: OrderType,
    pub order_status: OrderStatus,
    pub side: OrderSide,
    pub _padding: [u8; 9],
}

impl OrderDTO {
    /// The trailing padding bytes.
    pub open spec fn padding(self) -> Seq<u8> {
        self._padding@
    }

    /// Bytes of the frame.
    pub open spec fn spec_bytes(self) -> Seq<u8> {
        le_bytes(self.price as nat, 16) + le_bytes(self.quantity as nat, 16) + le_bytes(
            self.filled_quantity as nat,
            16,
        ) + le_bytes(self.timestamp as nat, 8) + le_bytes(self.market_id as nat, 4) + le_bytes(
            self.order_id as nat,
            4,
        ) + le_bytes(self.user_id as nat, 4) + seq![
            self.order_type.spec_wire_byte(),
            self.order_status.spec_wire_byte(),
            self.side.spec_wire_byte(),
        ] + self.padding()
    }

    /// `b` is the frame of some order: 80 bytes whose type, status and side
    /// bytes name a value of their enum.
    pub open spec fn bytes_valid(b: Seq<u8>) -> bool {
        &&& b.len() == ORDER_DTO_SIZE
        &&& OrderType::spec_from_wire_byte(b[68]) is Some
        &&& OrderStatus::spec_from_wire_byte(b[69]) is Some
        &&& OrderSide::spec_from_wire_byte(b[70]) is Some
    }

    /// A new order record with zeroed padding.
    pub fn new(
        price: u128,
        quantity: u128,
        filled_quantity: u128,
        timestamp: u64,
        market_id: u32,
        order_id: u32,
        user_id: u32,
        order_type: OrderType,
        order_status: OrderStatus,
        side: OrderSide,
    ) -> (r: Self)
        ensures
            r.price == price,
            r.quantity == quantity,
            r.filled_quantity == filled_quantity,
            r.timestamp == timestamp,
            r.market_id == market_id,
            r.order_id == order_id,
            r.user_id == user_id,
            r.order_type == order_type,
            r.order_status == order_status,
            r.side == side,
            r.padding() == Seq::new(9, |i: int| 0u8),
    {
        let r = Self {
            price,
            quantity,
            filled_quantity,
            timestamp,
            market_id,
            order_id,
            user_id,
            order_type,
            order_status,
            side,
            _padding: [0u8; 9],
        };
        assert(r.padding() =~= Seq::new(9, |i: int| 0u8));
        r
    }

    /// Appends the frame of this order to `out`.
    pub fn write_bytes(&self, out: &mut Vec<u8>)
        ensures
            final(out)@ == old(out)@ + self.spec_bytes(),
    {
        let ghost start = out@;
        put_le(out, self.price, 16);
        put_le(out, self.quantity, 16);
        put_le(out, self.filled_quantity, 16);
        put_le(out, self.timestamp as u128, 8);
        put_le(out, self.market_id as u128, 4);
        put_le(out, self.order_id as u128, 4);
        put_le(out, self.user_id as u128, 4);
        out.push(self.order_type.wire_byte());
        out.push(self.order_status.wire_byte());
        out.push(self.side.wire_byte());
        let mut i: usize = 0;
        let ghost mid = out@;
        while i < 9
            invariant
                i <= 9,
                out@ == mid + self._padding@.take(i as int),
            decreases 9 - i,
        {
            out.push(self._padding[i]);
            i = i + 1;
            assert(out@ =~= mid + self._padding@.take(i as int));
        }
        assert(self._padding@.take(9) =~= self._padding@);
        assert(out@ =~= start + self.spec_bytes());
    }

    /// The order framed by the 80 bytes at `off`, or `None` when an enum byte
    /// names no value.
    pub fn read_at(bytes: &[u8], off: usize) -> (r: Option<Self>)
        requires
            off + ORDER_DTO_SIZE <= bytes@.len(),
        ensures
            r is Some <==> Self::bytes_valid(bytes@.subrange(off as int, off + ORDER_DTO_SIZE)),
            r matches Some(x) ==> x.spec_bytes() == bytes@.subrange(off as int, off + ORDER_DTO_SIZE),
    {
        let ghost b = bytes@.subrange(off as int, off + ORDER_DTO_SIZE);
        let _len = bytes.len();
        let order_type = OrderType::from_wire_byte(bytes[off + 68]);
        let order_status = OrderStatus::from_wire_byte(bytes[off + 69]);
        let side = OrderSide::from_wire_byte(bytes[off + 70]);
        match (order_type, order_status, side) {
            (Some(order_type), Some(order_status), Some(side)) => {
                let price = get_le(bytes, off, 16);
                let quantity = get_le(bytes, off + 16, 16);
                let filled_quantity = get_le(bytes, off + 32, 16);
                let timestamp = get_le(bytes, off + 48, 8);
                let market_id = get_le(bytes, off + 56, 4);
                let order_id = get_le(bytes, off + 60, 4);
                let user_id = get_le(bytes, off + 64, 4);
                proof {
                    lemma_pow256_values();
                    crate::common::wire::lemma_le_value_bound(
                        bytes@.subrange(off + 48, off + 56),
                    );
                    crate::common::wire::lemma_le_value_bound(
                        bytes@.subrange(off + 56, off + 60),
                    );
                    crate::common::wire::lemma_le_value_bound(
                        bytes@.subrange(off + 60, off + 64),
                    );
                    crate::common::wire::lemma_le_value_bound(
                        bytes@.subrange(off + 64, off + 68),
                    );
                }
                let p = off + 71;
                let x = Self {
                    price,
                    quantity,
                    filled_quantity,
                    timestamp: timestamp as u64,
                    market_id: market_id as u32,
                    order_id: order_id as u32,
                    user_id: user_id as u32,
                    order_type,
                    order_status,
                    side,
                    _padding: [
                        bytes[p],
                        bytes[p + 1],
                        bytes[p + 2],
                        bytes[p + 3],
                        bytes[p + 4],
                        bytes[p + 5],
                        bytes[p + 6],
                        bytes[p + 7],
                        bytes[p + 8],
                    ],
                };
                proof {
                    lemma_le_value_encodes(bytes@.subrange(off as int, off + 16));
                    lemma_le_value_encodes(bytes@.subrange(off + 16, off + 32));
                    lemma_le_value_encodes(bytes@.subrange(off + 32, off + 48));
                    lemma_le_value_encodes(bytes@.subrange(off + 48, off + 56));
                    lemma_le_value_encodes(bytes@.subrange(off + 56, off + 60));
                    lemma_le_value_encodes(bytes@.subrange(off + 60, off + 64));
                    lemma_le_value_encodes(bytes@.subrange(off + 64, off + 68));
                    assert(x.padding() =~= bytes@.subrange(off + 71, off + 80));
                    assert(x.spec_bytes() =~= b);
                }
                Some(x)
            },
            _ => None,
        }
    }

    /// Equal frames come from equal orders.
    pub proof fn lemma_bytes_injective(a: Self, b: Self)
        requires
            a.spec_bytes() == b.spec_bytes(),
        ensures
            a == b,
    {
        lemma_pow256_values();
        let s = a.spec_bytes();
        crate::common::wire::lemma_le_bytes_len(a.price as nat, 16);
        crate::common::wire::lemma_le_bytes_len(a.quantity as nat, 16);
        crate::common::wire::lemma_le_bytes_len(a.filled_quantity as nat, 16);
        crate::common::wire::lemma_le_bytes_len(a.timestamp as nat, 8);
        crate::common::wire::lemma_le_bytes_len(a.market_id as nat, 4);
        crate::common::wire::lemma_le_bytes_len(a.order_id as nat, 4);
        crate::common::wire::lemma_le_bytes_len(a.user_id as nat, 4);
        crate::common::wire::lemma_le_bytes_len(b.price as nat, 16);
        crate::common::wire::lemma_le_bytes_len(b.quantity as nat, 16);
        crate::common::wire::lemma_le_bytes_len(b.filled_quantity as nat, 16);
        crate::common::wire::lemma_le_bytes_len(b.timestamp as nat, 8);
        crate::common::wire::lemma_le_bytes_len(b.market_id as nat, 4);
        crate::common::wire::lemma_le_bytes_len(b.order_id as nat, 4);
        crate::common::wire::lemma_le_bytes_len(b.user_id as nat, 4);
        lemma_le_roundtrip(a.price as nat, 16);
        lemma_le_roundtrip(a.quantity as nat, 16);
        lemma_le_roundtrip(a.filled_quantity as nat, 16);
        lemma_le_roundtrip(a.timestamp as nat, 8);
        lemma_le_roundtrip(a.market_id as nat, 4);
        lemma_le_roundtrip(a.order_id as nat, 4);
        lemma_le_roundtrip(a.user_id as nat, 4);
        lemma_le_roundtrip(b.price as nat, 16);
        lemma_le_roundtrip(b.quantity as nat, 16);
        lemma_le_roundtrip(b.filled_quantity as nat, 16);
        lemma_le_roundtrip(b.timestamp as nat, 8);
        lemma_le_roundtrip(b.market_id as nat, 4);
        lemma_le_roundtrip(b.order_id as nat, 4);
        lemma_le_roundtrip(b.user_id as nat, 4);
        assert(le_bytes(a.price as nat, 16) == s.subrange(0, 16));
        assert(le_bytes(b.price as nat, 16) == s.subrange(0, 16));
        assert(le_bytes(a.quantity as nat, 16) == s.subrange(16, 32));
        assert(le_bytes(b.quantity as nat, 16) == s.subrange(16, 32));
        assert(le_bytes(a.filled_quantity as nat, 16) == s.subrange(32, 48));
        assert(le_bytes(b.filled_quantity as nat, 16) == s.subrange(32, 48));
        assert(le_bytes(a.timestamp as nat, 8) == s.subrange(48, 56));
        assert(le_bytes(b.timestamp as nat, 8) == s.subrange(48, 56));
        assert(le_bytes(a.market_id as nat, 4) == s.subrange(56, 60));
        assert(le_bytes(b.market_id as nat, 4) == s.subrange(56, 60));
        assert(le_bytes(a.order_id as nat, 4) == s.subrange(60, 64));
        assert(le_bytes(b.order_id as nat, 4) == s.subrange(60, 64));
        assert(le_bytes(a.user_id as nat, 4) == s.subrange(64, 68));
        assert(le_bytes(b.user_id as nat, 4) == s.subrange(64, 68));
        assert(s[68] == a.order_type.spec_wire_byte() && s[68] == b.order_type.spec_wire_byte());
        assert(s[69] == a.order_status.spec_wire_byte() && s[69] == b.order_status.spec_wire_byte());
        assert(s[70] == a.side.spec_wire_byte() && s[70] == b.side.spec_wire_byte());
        assert(a._padding@ =~= s.subrange(71, 80));
        assert(b._padding@ =~= s.subrange(71, 80));
        assert(a._padding =~= b._padding);
    }
}

} // verus!

verus! {

impl OrderDTO {
    /// In every frame the side byte (@70) is 1 for a Buy, 0xFF (the `i8`
    /// -1) for a Sell and 0 for an unset side.
    pub proof fn lemma_side_byte(a: Self)
        ensures
            a.spec_bytes()[70] == (if a.side is Buy {
                1u8
            } else if a.side is Sell {
                0xFFu8
            } else {
                0u8
            }),
    {
        crate::common::wire::lemma_le_bytes_len(a.price as nat, 16);
        crate::common::wire::lemma_le_bytes_len(a.quantity as nat, 16);
        crate::common::wire::lemma_le_bytes_len(a.filled_quantity as nat, 16);
        crate::common::wire::lemma_le_bytes_len(a.timestamp as nat, 8);
        crate::common::wire::lemma_le_bytes_len(a.market_id as nat, 4);
        crate::common::wire::lemma_le_bytes_len(a.order_id as nat, 4);
        crate::common::wire::lemma_le_bytes_len(a.user_id as nat, 4);
        assert(a.spec_bytes()[70] == a.side.spec_wire_byte());
    }

    /// The frame of an order is a valid frame.
    pub proof fn lemma_bytes_valid(a: Self)
        ensures
            Self::bytes_valid(a.spec_bytes()),
    {
        crate::common::wire::lemma_le_bytes_len(a.price as nat, 16);
        crate::common::wire::lemma_le_bytes_len(a.quantity as nat, 16);
        crate::common::wire::lemma_le_bytes_len(a.filled_quantity as nat, 16);
        crate::common::wire::lemma_le_bytes_len(a.timestamp as nat, 8);
        crate::common::wire::lemma_le_bytes_len(a.market_id as nat, 4);
        crate::common::wire::lemma_le_bytes_len(a.order_id as nat, 4);
        crate::common::wire::lemma_le_bytes_len(a.user_id as nat, 4);
        let s = a.spec_bytes();
        assert(s[68] == a.order_type.spec_wire_byte());
        assert(s[69] == a.order_status.spec_wire_byte());
        assert(s[70] == a.side.spec_wire_byte());
    }
}

} // verus!
