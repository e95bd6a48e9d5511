//! Order attributes carried on the wire and inside the engine.
use vstd::prelude::*;

verus! {

/// Which way an order trades. On the wire it is one signed byte:
/// `Unset` = 0, `Buy` = 1, `Sell` = -1.
#[derive(Debug, Clone, Copy, PartialEq, Eq, Structural)]
pub enum OrderSide {
    Unset,
    Buy,
    Sell,
}

/// Order type; on the wire one byte: `LIMIT` = 0, `MARKET` = 1.
#[derive(Debug, Clone, Copy, PartialEq, Eq, Structural)]
#[allow(non_camel_case_types)]
pub enum OrderType {
    LIMIT,
    MARKET,
}

/// Order status; on the wire one byte numbered in declaration order.
#[derive(Debug, Clone, Copy, PartialEq, Eq, Structural)]
pub enum OrderStatus {
    Pending,
    Filled,
    PartiallyFilled,
    Cancelled,
}

} // verus!

verus! {

impl OrderSide {
    /// Wire byte of the side (the two's-complement byte of its `i8` value).
    pub open spec fn spec_wire_byte(self) -> u8 {
        match self {
            OrderSide::Unset => 0,
            OrderSide::Buy => 1,
            OrderSide::Sell => 255,
        }
    }

    /// Side named by a wire byte, if any.
    pub open spec fn spec_from_wire_byte(b: u8) -> Option<OrderSide> {
        if b == 0 {
            Some(OrderSide::Unset)
        } else if b == 1 {
            Some(OrderSide::Buy)
        } else if b == 255 {
            Some(OrderSide::Sell)
        } else {
            None
        }
    }

    pub fn wire_byte(&self) -> (b: u8)
        ensures
            b == self.spec_wire_byte(),
    {
        match self {
            OrderSide::Unset => 0,
            OrderSide::Buy => 1,
            OrderSide::Sell => 255,
        }
    }

    pub fn from_wire_byte(b: u8) -> (r: Option<OrderSide>)
        ensures
            r == Self::spec_from_wire_byte(b),
    {
        if b == 0 {
            Some(OrderSide::Unset)
        } else if b == 1 {
            Some(OrderSide::Buy)
        } else if b == 255 {
            Some(OrderSide::Sell)
        } else {
            None
        }
    }
}

impl OrderType {
    /// Wire byte of the order type.
    pub open spec fn spec_wire_byte(self) -> u8 {
        match self {
            OrderType::LIMIT => 0,
            OrderType::MARKET => 1,
        }
    }

    /// Order type named by a wire byte, if any.
    pub open spec fn spec_from_wire_byte(b: u8) -> Option<OrderType> {
        if b == 0 {
            Some(OrderType::LIMIT)
        } else if b == 1 {
            Some(OrderType::MARKET)
        } else {
            None
        }
    }

    pub fn wire_byte(&self) -> (b: u8)
        ensures
            b == self.spec_wire_byte(),
    {
        match self {
            OrderType::LIMIT => 0,
            OrderType::MARKET => 1,
        }
    }

    pub fn from_wire_byte(b: u8) -> (r: Option<OrderType>)
        ensures
            r == Self::spec_from_wire_byte(b),
    {
        if b == 0 {
            Some(OrderType::LIMIT)
        } else if b == 1 {
            Some(OrderType::MARKET)
        } else {
            None
        }
    }
}

impl OrderStatus {
    /// Wire byte of the status.
    pub open spec fn spec_wire_byte(self) -> u8 {
        match self {
            OrderStatus::Pending => 0,
            OrderStatus::Filled => 1,
            OrderStatus::PartiallyFilled => 2,
            OrderStatus::Cancelled => 3,
        }
    }

    /// Status named by a wire byte, if any.
    pub open spec fn spec_from_wire_byte(b: u8) -> Option<OrderStatus> {
        if b == 0 {
            Some(OrderStatus::Pending)
        } else if b == 1 {
            Some(OrderStatus::Filled)
        } else if b == 2 {
            Some(OrderStatus::PartiallyFilled)
        } else if b == 3 {
            Some(OrderStatus::Cancelled)
        } else {
            None
        }
    }

    pub fn wire_byte(&self) -> (b: u8)
        ensures
            b == self.spec_wire_byte(),
    {
        match self {
            OrderStatus::Pending => 0,
            OrderStatus::Filled => 1,
            OrderStatus::PartiallyFilled => 2,
            OrderStatus::Cancelled => 3,
        }
    }

    pub fn from_wire_byte(b: u8) -> (r: Option<OrderStatus>)
        ensures
            r == Self::spec_from_wire_byte(b),
    {
        if b == 0 {
            Some(OrderStatus::Pending)
        } else if b == 1 {
            Some(OrderStatus::Filled)
        } else if b == 2 {
            Some(OrderStatus::PartiallyFilled)
        } else if b == 3 {
            Some(OrderStatus::Cancelled)
        } else {
            None
        }
    }
}

/// The side's wire code is its `i8` value as a byte: a Buy is 1, a Sell is
/// 0xFF (the `i8` -1) and an unset side is 0; decoding gives back exactly
/// these sides for exactly these bytes, and every other byte names no side.
pub proof fn lemma_side_wire_codes()
    ensures
        forall|s: OrderSide|
            #![trigger s.spec_wire_byte()]
            (s.spec_wire_byte() == 1u8 <==> s is Buy) && (s.spec_wire_byte() == 0xFFu8 <==> s is Sell)
                && (s.spec_wire_byte() == 0u8 <==> s is Unset),
        forall|b: u8|
            #![trigger OrderSide::spec_from_wire_byte(b)]
            (OrderSide::spec_from_wire_byte(b) == Some(OrderSide::Buy) <==> b == 1u8)
                && (OrderSide::spec_from_wire_byte(b) == Some(OrderSide::Sell) <==> b == 0xFFu8)
                && (OrderSide::spec_from_wire_byte(b) == Some(OrderSide::Unset) <==> b == 0u8)
                && (OrderSide::spec_from_wire_byte(b) is None <==> (b != 0u8 && b != 1u8 && b
                != 0xFFu8)),
{
}

/// The order type's wire code: `LIMIT` is 0 and `MARKET` is 1, and decoding
/// gives back exactly these types for exactly these bytes.
pub proof fn lemma_type_wire_codes()
    ensures
        forall|t: OrderType|
            #![trigger t.spec_wire_byte()]
            (t.spec_wire_byte() == 0u8 <==> t is LIMIT) && (t.spec_wire_byte() == 1u8 <==> t is MARKET),
        forall|b: u8|
            #![trigger OrderType::spec_from_wire_byte(b)]
            (OrderType::spec_from_wire_byte(b) == Some(OrderType::LIMIT) <==> b == 0u8)
                && (OrderType::spec_from_wire_byte(b) == Some(OrderType::MARKET) <==> b == 1u8)
                && (OrderType::spec_from_wire_byte(b) is None <==> b > 1u8),
{
}

/// The order status's wire code is its position in declaration order:
/// `Pending` 0, `Filled` 1, `PartiallyFilled` 2, `Cancelled` 3; decoding gives
/// back exactly these statuses for exactly these bytes.
pub proof fn lemma_status_wire_codes()
    ensures
        forall|t: OrderStatus|
            #![trigger t.spec_wire_byte()]
            (t.spec_wire_byte() == 0u8 <==> t is Pending) && (t.spec_wire_byte() == 1u8 <==> t is Filled)
                && (t.spec_wire_byte() == 2u8 <==> t is PartiallyFilled) && (t.spec_wire_byte() == 3u8
                <==> t is Cancelled),
        forall|b: u8|
            #![trigger OrderStatus::spec_from_wire_byte(b)]
            (OrderStatus::spec_from_wire_byte(b) == Some(OrderStatus::Pending) <==> b == 0u8)
                && (OrderStatus::spec_from_wire_byte(b) == Some(OrderStatus::Filled) <==> b == 1u8)
                && (OrderStatus::spec_from_wire_byte(b) == Some(OrderStatus::PartiallyFilled) <==> b
                == 2u8) && (OrderStatus::spec_from_wire_byte(b) == Some(OrderStatus::Cancelled) <==> b
                == 3u8) && (OrderStatus::spec_from_wire_byte(b) is None <==> b > 3u8),
{
}

} // verus!
