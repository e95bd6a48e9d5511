//! A resting order as stored in the book's order pool.
use vstd::prelude::*;

use crate::common::mem_pool::POOL_IDX_NULL;
use crate::common::models::OrderSide;
use crate::common::types::{
    ClientId, OrderId, PoolIdx, Price, Priority, Qty, TickerId, CLIENT_ID_INVALID, ORDER_ID_INVALID,
    PRICE_INVALID, PRIORITY_INVALID, QTY_INVALID, TICKER_ID_INVALID,
};

verus! {

/// One order resting in a book. Orders at one price form a circular doubly
/// linked FIFO through `prev_order` / `next_order` (handles into the order pool).
#[derive(Clone, Copy)]
pub struct Order {
    pub ticker_id: TickerId,
    pub client_id: ClientId,
    pub client_order_id: OrderId,
    pub market_order_id: OrderId,
    pub side: OrderSide,
    pub price: Price,
    pub quantity: Qty,
    pub priority: Priority,
    pub prev_order: PoolIdx,
    pub next_order: PoolIdx,
}

impl Order {
    /// An order slot that holds no order: every field at its invalid value.
    pub open spec fn empty() -> Order {
        Order {
            ticker_id: TICKER_ID_INVALID,
            client_id: CLIENT_ID_INVALID,
            client_order_id: ORDER_ID_INVALID,
            market_order_id: ORDER_ID_INVALID,
            side: OrderSide::Unset,
            price: PRICE_INVALID,
            quantity: QTY_INVALID,
            priority: PRIORITY_INVALID,
            prev_order: POOL_IDX_NULL,
            next_order: POOL_IDX_NULL,
        }
    }
}

impl Default for Order {
    fn default() -> (r: Self)
        ensures
            r == Order::empty(),
    {
        Order {
            ticker_id: TICKER_ID_INVALID,
            client_id: CLIENT_ID_INVALID,
            client_order_id: ORDER_ID_INVALID,
            market_order_id: ORDER_ID_INVALID,
            side: OrderSide::Unset,
            price: PRICE_INVALID,
            quantity: QTY_INVALID,
            priority: PRIORITY_INVALID,
            prev_order: POOL_IDX_NULL,
            next_order: POOL_IDX_NULL,
        }
    }
}

} // verus!
