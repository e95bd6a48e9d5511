//! Price levels: all orders resting at one price, in FIFO priority order.
use vstd::prelude::*;

use crate::common::mem_pool::POOL_IDX_NULL;
use crate::common::models::OrderSide;
use crate::common::types::{PoolIdx, Price, ME_MAX_PRICE_LEVELS, PRICE_INVALID};

verus! {

/// One price level. `head_order` is the oldest (highest priority) order of
/// the level's circular FIFO; `prev_order` / `next_order` link the level into
/// its side's circular list of levels.
pub struct OrdersAtPrice {
    pub price: Price,
    pub head_order: PoolIdx,
    pub prev_order: PoolIdx,
    pub next_order: PoolIdx,
    pub side: OrderSide,
}

impl OrdersAtPrice {
    /// A level slot that holds no level.
    pub open spec fn empty() -> OrdersAtPrice {
        OrdersAtPrice {
            price: PRICE_INVALID,
            head_order: POOL_IDX_NULL,
            prev_order: POOL_IDX_NULL,
            next_order: POOL_IDX_NULL,
            side: OrderSide::Unset,
        }
    }
}

impl Default for OrdersAtPrice {
    fn default() -> (r: Self)
        ensures
            r == OrdersAtPrice::empty(),
    {
        OrdersAtPrice {
            price: PRICE_INVALID,
            head_order: POOL_IDX_NULL,
            prev_order: POOL_IDX_NULL,
            next_order: POOL_IDX_NULL,
            side: OrderSide::Unset,
        }
    }
}

/// Direct map from a price slot to the handle of its level.
pub struct PriceOrderAtPrice {
    pub price_orders_at_price: Vec<PoolIdx>,
}

impl PriceOrderAtPrice {
    /// Every one of the `ME_MAX_PRICE_LEVELS` slots empty.
    pub fn new() -> (r: Self)
        ensures
            r.price_orders_at_price@ == Seq::new(ME_MAX_PRICE_LEVELS as nat, |i: int| POOL_IDX_NULL),
    {
        let mut v: Vec<PoolIdx> = Vec::new();
        let mut i: usize = 0;
        while i < ME_MAX_PRICE_LEVELS
            invariant
                i <= ME_MAX_PRICE_LEVELS,
                v@ == Seq::new(i as nat, |k: int| POOL_IDX_NULL),
            decreases ME_MAX_PRICE_LEVELS - i,
        {
            v.push(POOL_IDX_NULL);
            i = i + 1;
        }
        Self { price_orders_at_price: v }
    }

    /// The level handle stored in slot `price_index`.
    pub fn get_orders_at_price(&self, price_index: usize) -> (r: PoolIdx)
        requires
            price_index < self.price_orders_at_price@.len(),
        ensures
            r == self.price_orders_at_price@[price_index as int],
    {
        self.price_orders_at_price[price_index]
    }
}

} // verus!
