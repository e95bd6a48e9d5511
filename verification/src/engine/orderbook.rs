//! One instrument's limit order book: on each side, price levels in price
//! priority order (highest bid first, lowest ask first), each level a FIFO
//! of the orders resting at its price, oldest first.
use vstd::prelude::*;

use crate::common::models::OrderSide;
use crate::common::types::{
    ClientId, OrderId, Price, Qty, TickerId, ME_MAX_NUM_CLIENTS, ME_MAX_ORDER_IDS,
};

verus! {

/// An order resting in the book. Its side and price are those of the level
/// that holds it; `priority` is its position in arrival order at that price
/// (1 for the order that opened the level).
#[derive(Clone, Copy, Debug, PartialEq, Eq, Structural)]
pub struct RestingOrder {
    pub client_id: ClientId,
    pub client_order_id: OrderId,
    pub market_order_id: OrderId,
    pub quantity: Qty,
    pub priority: u64,
}

/// All orders resting at one price, oldest first.
pub struct PriceLevel {
    pub price: Price,
    pub orders: Vec<RestingOrder>,
}

/// A price level as plain values.
#[verifier::ext_equal]
pub struct LevelView {
    pub price: u128,
    pub orders: Seq<RestingOrder>,
}

impl View for PriceLevel {
    type V = LevelView;

    open spec fn view(&self) -> LevelView {
        LevelView { price: self.price, orders: self.orders@ }
    }
}

/// The levels of a side as plain values.
pub open spec fn levels_view(v: Seq<PriceLevel>) -> Seq<LevelView> {
    v.map_values(|l: PriceLevel| l@)
}

/// The order book of one instrument.
pub struct OrderBook {
    pub ticker_id: TickerId,
    bids: Vec<PriceLevel>,
    asks: Vec<PriceLevel>,
    next_market_order_id: OrderId,
}

/// The state of a book: its bid and ask levels, best first, and the market
/// order id the next accepted order takes.
#[verifier::ext_equal]
pub struct BookView {
    pub ticker_id: u32,
    pub bids: Seq<LevelView>,
    pub asks: Seq<LevelView>,
    pub next_id: u64,
}

impl View for OrderBook {
    type V = BookView;

    closed spec fn view(&self) -> BookView {
        BookView {
            ticker_id: self.ticker_id,
            bids: levels_view(self.bids@),
            asks: levels_view(self.asks@),
            next_id: self.next_market_order_id,
        }
    }
}

// ---- price priority ------------------------------------------------------------

/// On the side `side` rests on, a level at `a` ranks before one at `b`:
/// higher prices first for bids, lower prices first for asks.
pub open spec fn ranks_before(side: OrderSide, a: u128, b: u128) -> bool {
    match side {
        OrderSide::Buy => a > b,
        _ => a < b,
    }
}

/// An incoming order on `side` limited at `price` trades with a resting level
/// at `level_price`: a buy with asks at or below its price, a sell with bids
/// at or above it.
pub open spec fn crosses(side: OrderSide, price: u128, level_price: u128) -> bool {
    match side {
        OrderSide::Buy => level_price <= price,
        OrderSide::Sell => level_price >= price,
        OrderSide::Unset => false,
    }
}

/// A resting order has quantity left and a priority below `bound`.
pub open spec fn order_ok(o: RestingOrder, bound: u64) -> bool {
    o.quantity > 0 && o.priority < bound
}

/// The levels of one side are in strict price priority order, none is
/// empty, and every order has quantity left and a priority below `bound`.
pub open spec fn side_ok(levels: Seq<LevelView>, side: OrderSide, bound: u64) -> bool {
    &&& forall|i: int, j: int|
        0 <= i < j < levels.len() ==> ranks_before(side, #[trigger] levels[i].price, #[trigger] levels[j].price)
    &&& forall|i: int| 0 <= i < levels.len() ==> (#[trigger] levels[i]).orders.len() > 0
    &&& forall|i: int, k: int|
        0 <= i < levels.len() && 0 <= k < levels[i].orders.len() ==> order_ok(
            #[trigger] levels[i].orders[k],
            bound,
        )
}

/// Some level of `levels` is at price `p`.
pub open spec fn has_price(levels: Seq<LevelView>, p: u128) -> bool {
    exists|i: int| 0 <= i < levels.len() && #[trigger] levels[i].price == p
}

// ---- matching ------------------------------------------------------------------

/// Total quantity of a run of orders.
pub open spec fn sum_qty(s: Seq<RestingOrder>) -> nat
    decreases s.len(),
{
    if s.len() == 0 {
        0
    } else {
        s[0].quantity as nat + sum_qty(s.drop_first())
    }
}

/// What is left of `q` once `total` of it is filled.
pub open spec fn unfilled(q: int, total: int) -> int {
    if q <= total {
        0
    } else {
        q - total
    }
}

/// A level's FIFO after `qty` is matched against it, oldest order first, and
/// what is left of `qty`: each order is filled by the smaller quantity,
/// removed once nothing is left of it, and cut by the fill otherwise.
pub open spec fn fill_orders(orders: Seq<RestingOrder>, qty: u128) -> (Seq<RestingOrder>, u128)
    decreases orders.len(),
{
    if qty == 0 || orders.len() == 0 {
        (orders, qty)
    } else if orders[0].quantity <= qty {
        fill_orders(orders.drop_first(), (qty - orders[0].quantity) as u128)
    } else {
        (orders.update(0, RestingOrder { quantity: (orders[0].quantity - qty) as u128, ..orders[0] }), 0)
    }
}

/// Quantity resting at the levels an order on `side` limited at `price`
/// trades with.
pub open spec fn cross_qty(levels: Seq<LevelView>, side: OrderSide, price: u128) -> nat
    decreases levels.len(),
{
    if levels.len() == 0 || !crosses(side, price, levels[0].price) {
        0
    } else {
        sum_qty(levels[0].orders) + cross_qty(levels.drop_first(), side, price)
    }
}

/// The opposite side's levels after an order on `side` limited at `price`
/// for `qty` is matched against them, and what is left of `qty`: levels are
/// taken best first while they cross, a level that is used up disappears and
/// matching goes on at the next one.
pub open spec fn fill_levels(levels: Seq<LevelView>, side: OrderSide, price: u128, qty: u128) -> (
    Seq<LevelView>,
    u128,
)
    decreases levels.len(),
{
    if qty == 0 || levels.len() == 0 || !crosses(side, price, levels[0].price) {
        (levels, qty)
    } else {
        let (rest, q1) = fill_orders(levels[0].orders, qty);
        if rest.len() == 0 {
            fill_levels(levels.drop_first(), side, price, q1)
        } else {
            (levels.update(0, LevelView { orders: rest, ..levels[0] }), q1)
        }
    }
}

// ---- resting ---------------------------------------------------------------------

/// Number of levels of `levels` that rank before `price` on `side`: where a
/// level at `price` stands or goes.
pub open spec fn level_pos(levels: Seq<LevelView>, side: OrderSide, price: u128) -> nat
    decreases levels.len(),
{
    if levels.len() == 0 {
        0
    } else if ranks_before(side, levels[0].price, price) {
        1 + level_pos(levels.drop_first(), side, price)
    } else {
        0
    }
}

/// The side after `order` rests at `price`: at the tail of the level at that
/// price, with the priority after its last order, or as the first order
/// (priority 1) of a new level placed in price priority order.
pub open spec fn rest_order(levels: Seq<LevelView>, side: OrderSide, price: u128, order: RestingOrder) -> Seq<
    LevelView,
> {
    let i = level_pos(levels, side, price) as int;
    if i < levels.len() && levels[i].price == price {
        let lv = levels[i];
        levels.update(
            i,
            LevelView {
                orders: lv.orders.push(
                    RestingOrder { priority: (lv.orders.last().priority + 1) as u64, ..order },
                ),
                ..lv
            },
        )
    } else {
        levels.insert(i, LevelView { price, orders: seq![RestingOrder { priority: 1, ..order }] })
    }
}

// ---- cancelling --------------------------------------------------------------------

/// `r` is not the order `order_id` of client `client_id`.
pub open spec fn keeps(r: RestingOrder, client_id: u32, order_id: u64) -> bool {
    !(r.client_id == client_id && r.client_order_id == order_id)
}

/// A FIFO without the orders `order_id` of client `client_id`, the others
/// in their order.
pub open spec fn without(s: Seq<RestingOrder>, client_id: u32, order_id: u64) -> Seq<RestingOrder>
    decreases s.len(),
{
    if s.len() == 0 {
        s
    } else {
        let w = without(s.drop_last(), client_id, order_id);
        if keeps(s.last(), client_id, order_id) {
            w.push(s.last())
        } else {
            w
        }
    }
}

/// A side without the orders `order_id` of client `client_id`; a level left
/// with no order disappears.
pub open spec fn cancel_levels(levels: Seq<LevelView>, client_id: u32, order_id: u64) -> Seq<
    LevelView,
>
    decreases levels.len(),
{
    if levels.len() == 0 {
        levels
    } else {
        let w = cancel_levels(levels.drop_last(), client_id, order_id);
        let kept = without(levels.last().orders, client_id, order_id);
        if kept.len() == 0 {
            w
        } else {
            w.push(LevelView { price: levels.last().price, orders: kept })
        }
    }
}

/// The book `OrderBook::new(ticker_id)` starts as: no level on either side,
/// and market order ids starting at 1.
pub open spec fn new_book(ticker_id: u32) -> BookView {
    BookView { ticker_id, bids: Seq::empty(), asks: Seq::empty(), next_id: 1 }
}

/// The ids a cancel can name: a client below `ME_MAX_NUM_CLIENTS` and an
/// order id below `ME_MAX_ORDER_IDS`.
pub open spec fn cancel_in_range(client_id: u32, order_id: u64) -> bool {
    client_id < ME_MAX_NUM_CLIENTS && order_id < ME_MAX_ORDER_IDS
}

impl BookView {
    /// A sound book: both sides in price priority order with no empty level
    /// and every order live with a priority below the next id, and the book
    /// not crossed (the best bid below the best ask).
    pub open spec fn wf(self) -> bool {
        &&& self.next_id >= 1
        &&& side_ok(self.bids, OrderSide::Buy, self.next_id)
        &&& side_ok(self.asks, OrderSide::Sell, self.next_id)
        &&& self.bids.len() > 0 && self.asks.len() > 0 ==> self.bids[0].price < self.asks[0].price
    }

    /// `add(...)` completes: a market order id is left to take, and an order
    /// of unset side (which can neither match nor rest) has no quantity.
    pub open spec fn add_ok(self, side: OrderSide, quantity: u128) -> bool {
        &&& self.next_id < 0xffff_ffff_ffff_ffffu64
        &&& (side != OrderSide::Unset || quantity == 0)
    }

    /// The order that rests for what is left of a new order.
    pub open spec fn new_order(self, client_id: u32, client_order_id: u64, leaves: u128) -> RestingOrder {
        RestingOrder {
            client_id,
            client_order_id,
            market_order_id: self.next_id,
            quantity: leaves,
            priority: 0,
        }
    }

    /// Quantity of a new order left after matching it against the opposite
    /// side.
    pub open spec fn add_leaves(self, side: OrderSide, price: u128, quantity: u128) -> u128 {
        match side {
            OrderSide::Buy => fill_levels(self.asks, side, price, quantity).1,
            OrderSide::Sell => fill_levels(self.bids, side, price, quantity).1,
            OrderSide::Unset => quantity,
        }
    }

    /// Book after `add(...)`: the order takes the next market order id, is
    /// matched against the opposite side in price then time priority, and
    /// whatever is left of it rests on its own side.
    pub open spec fn after_add(
        self,
        client_id: u32,
        client_order_id: u64,
        side: OrderSide,
        price: u128,
        quantity: u128,
    ) -> BookView {
        let next = (self.next_id + 1) as u64;
        match side {
            OrderSide::Buy => {
                let (asks, leaves) = fill_levels(self.asks, side, price, quantity);
                let bids = if leaves > 0 {
                    rest_order(self.bids, side, price, self.new_order(client_id, client_order_id, leaves))
                } else {
                    self.bids
                };
                BookView { bids, asks, next_id: next, ..self }
            },
            OrderSide::Sell => {
                let (bids, leaves) = fill_levels(self.bids, side, price, quantity);
                let asks = if leaves > 0 {
                    rest_order(self.asks, side, price, self.new_order(client_id, client_order_id, leaves))
                } else {
                    self.asks
                };
                BookView { bids, asks, next_id: next, ..self }
            },
            OrderSide::Unset => BookView { next_id: next, ..self },
        }
    }

    /// Book after `cancel(client_id, order_id, _)`: the orders with those ids
    /// are gone when the ids are in range; otherwise nothing changes.
    pub open spec fn after_cancel(self, client_id: u32, order_id: u64) -> BookView {
        if cancel_in_range(client_id, order_id) {
            BookView {
                bids: cancel_levels(self.bids, client_id, order_id),
                asks: cancel_levels(self.asks, client_id, order_id),
                ..self
            }
        } else {
            self
        }
    }
}

// ---- lemmas ----------------------------------------------------------------------

/// Matching against a FIFO: what is left of it stays live under the same
/// bound, nothing more than `qty` is filled, and quantity is left over only
/// once the FIFO is used up.
pub proof fn lemma_fill_orders(orders: Seq<RestingOrder>, qty: u128, bound: u64)
    requires
        forall|k: int| 0 <= k < orders.len() ==> order_ok(#[trigger] orders[k], bound),
    ensures
        ({
            let (rest, left) = fill_orders(orders, qty);
            &&& forall|k: int| 0 <= k < rest.len() ==> order_ok(#[trigger] rest[k], bound)
            &&& left as int == unfilled(qty as int, sum_qty(orders) as int)
            &&& left > 0 ==> rest.len() == 0
            &&& rest.len() <= orders.len()
        }),
    decreases orders.len(),
{
    if qty == 0 || orders.len() == 0 {
    } else if orders[0].quantity <= qty {
        let t = orders.drop_first();
        assert forall|k: int| 0 <= k < t.len() implies order_ok(#[trigger] t[k], bound) by {
            assert(t[k] == orders[k + 1]);
        }
        lemma_fill_orders(t, (qty - orders[0].quantity) as u128, bound);
    } else {
        assert(order_ok(orders[0], bound));
    }
}

/// Matching against a side keeps it sound under the same bound, keeps only
/// prices it had, fills exactly the smaller of `qty` and the crossing
/// quantity, and leaves quantity over only where no level crosses any more.
pub proof fn lemma_fill_levels(
    levels: Seq<LevelView>,
    rside: OrderSide,
    side: OrderSide,
    price: u128,
    qty: u128,
    bound: u64,
)
    requires
        side_ok(levels, rside, bound),
    ensures
        ({
            let (res, left) = fill_levels(levels, side, price, qty);
            &&& side_ok(res, rside, bound)
            &&& forall|j: int| 0 <= j < res.len() ==> has_price(levels, #[trigger] res[j].price)
            &&& left as int == unfilled(qty as int, cross_qty(levels, side, price) as int)
            &&& left > 0 ==> (res.len() == 0 || !crosses(side, price, res[0].price))
        }),
    decreases levels.len(),
{
    if qty == 0 || levels.len() == 0 || !crosses(side, price, levels[0].price) {
        let res = levels;
        assert forall|j: int| 0 <= j < res.len() implies has_price(levels, #[trigger] res[j].price) by {
        }
    } else {
        let lv = levels[0];
        assert forall|k: int| 0 <= k < lv.orders.len() implies order_ok(#[trigger] lv.orders[k], bound) by {
            assert(order_ok(levels[0].orders[k], bound));
        }
        lemma_fill_orders(lv.orders, qty, bound);
        let (rest, q1) = fill_orders(lv.orders, qty);
        let t = levels.drop_first();
        if rest.len() == 0 {
            assert(side_ok(t, rside, bound)) by {
                assert forall|i: int, j: int|
                    0 <= i < j < t.len() implies ranks_before(rside, #[trigger] t[i].price, #[trigger] t[j].price) by {
                    assert(t[i] == levels[i + 1] && t[j] == levels[j + 1]);
                }
                assert forall|i: int| 0 <= i < t.len() implies (#[trigger] t[i]).orders.len() > 0 by {
                    assert(t[i] == levels[i + 1]);
                }
                assert forall|i: int, k: int|
                    0 <= i < t.len() && 0 <= k < t[i].orders.len() implies order_ok(#[trigger] t[i].orders[k], bound) by {
                    assert(t[i] == levels[i + 1]);
                }
            }
            lemma_fill_levels(t, rside, side, price, q1, bound);
            let res = fill_levels(t, side, price, q1).0;
            assert forall|j: int| 0 <= j < res.len() implies has_price(levels, #[trigger] res[j].price) by {
                assert(has_price(t, res[j].price));
                let i = choose|i: int| 0 <= i < t.len() && #[trigger] t[i].price == res[j].price;
                assert(levels[i + 1].price == res[j].price);
            }
        } else {
            let res = levels.update(0, LevelView { orders: rest, ..lv });
            assert forall|j: int| 0 <= j < res.len() implies has_price(levels, #[trigger] res[j].price) by {
                assert(res[j].price == levels[j].price);
            }
            assert forall|i: int, j: int|
                0 <= i < j < res.len() implies ranks_before(rside, #[trigger] res[i].price, #[trigger] res[j].price) by {
                assert(res[i].price == levels[i].price && res[j].price == levels[j].price);
            }
            assert forall|i: int, k: int|
                0 <= i < res.len() && 0 <= k < res[i].orders.len() implies order_ok(#[trigger] res[i].orders[k], bound) by {
                if i == 0 {
                    assert(res[0].orders[k] == rest[k]);
                } else {
                    assert(res[i] == levels[i]);
                }
            }
            assert forall|i: int| 0 <= i < res.len() implies (#[trigger] res[i]).orders.len() > 0 by {
                if i > 0 {
                    assert(res[i] == levels[i]);
                }
            }
        }
    }
}

/// The position found by walking past the levels that rank before `price`.
proof fn lemma_level_pos(levels: Seq<LevelView>, side: OrderSide, price: u128, i: int)
    requires
        0 <= i <= levels.len(),
        forall|k: int| 0 <= k < i ==> ranks_before(side, #[trigger] levels[k].price, price),
        i == levels.len() || !ranks_before(side, levels[i].price, price),
    ensures
        level_pos(levels, side, price) == i,
    decreases i,
{
    if i > 0 {
        let t = levels.drop_first();
        assert forall|k: int| 0 <= k < i - 1 implies ranks_before(side, #[trigger] t[k].price, price) by {
            assert(t[k] == levels[k + 1]);
        }
        if i < levels.len() {
            assert(t[i - 1] == levels[i]);
        }
        lemma_level_pos(t, side, price, i - 1);
    }
}

/// Where `level_pos` stands: every level before it ranks before `price`,
/// and the level at it, if any, does not.
pub proof fn lemma_level_pos_bounds(levels: Seq<LevelView>, side: OrderSide, price: u128)
    ensures
        level_pos(levels, side, price) <= levels.len(),
        forall|k: int|
            0 <= k < level_pos(levels, side, price) ==> ranks_before(
                side,
                #[trigger] levels[k].price,
                price,
            ),
        level_pos(levels, side, price) < levels.len() ==> !ranks_before(
            side,
            levels[level_pos(levels, side, price) as int].price,
            price,
        ),
    decreases levels.len(),
{
    if levels.len() > 0 && ranks_before(side, levels[0].price, price) {
        let t = levels.drop_first();
        lemma_level_pos_bounds(t, side, price);
        assert forall|k: int| 0 <= k < level_pos(levels, side, price) implies ranks_before(
            side,
            #[trigger] levels[k].price,
            price,
        ) by {
            if k > 0 {
                assert(levels[k] == t[k - 1]);
            }
        }
    }
}

/// Resting an order keeps its side sound under the next bound, and every
/// level of the result is at the order's price or at a price the side had.
pub proof fn lemma_rest_order(levels: Seq<LevelView>, side: OrderSide, price: u128, order: RestingOrder, bound: u64)
    requires
        side != OrderSide::Unset,
        side_ok(levels, side, bound),
        1 <= bound < 0xffff_ffff_ffff_ffffu64,
        order.quantity > 0,
    ensures
        side_ok(rest_order(levels, side, price, order), side, (bound + 1) as u64),
        forall|j: int|
            0 <= j < rest_order(levels, side, price, order).len() ==> (#[trigger] rest_order(
                levels,
                side,
                price,
                order,
            )[j].price == price || has_price(levels, rest_order(levels, side, price, order)[j].price)),
{
    lemma_level_pos_bounds(levels, side, price);
    let i = level_pos(levels, side, price) as int;
    let res = rest_order(levels, side, price, order);
    let b1 = (bound + 1) as u64;
    if i < levels.len() && levels[i].price == price {
        let lv = levels[i];
        assert(order_ok(lv.orders[lv.orders.len() - 1], bound));
        assert forall|j: int| 0 <= j < res.len() implies (#[trigger] res[j].price == price || has_price(levels, res[j].price)) by {
            assert(res[j].price == levels[j].price);
        }
        assert forall|a: int, b: int|
            0 <= a < b < res.len() implies ranks_before(side, #[trigger] res[a].price, #[trigger] res[b].price) by {
            assert(res[a].price == levels[a].price && res[b].price == levels[b].price);
        }
        assert forall|a: int| 0 <= a < res.len() implies (#[trigger] res[a]).orders.len() > 0 by {
            if a != i {
                assert(res[a] == levels[a]);
            }
        }
        assert forall|a: int, k: int|
            0 <= a < res.len() && 0 <= k < res[a].orders.len() implies order_ok(#[trigger] res[a].orders[k], b1) by {
            if a != i {
                assert(res[a] == levels[a]);
                assert(order_ok(levels[a].orders[k], bound));
            } else if k < lv.orders.len() {
                assert(res[a].orders[k] == lv.orders[k]);
                assert(order_ok(levels[a].orders[k], bound));
            }
        }
    } else {
        // every level from `i` on ranks after `price`
        assert forall|k: int| i <= k < levels.len() implies ranks_before(side, price, #[trigger] levels[k].price) by {
            if k > i {
                assert(ranks_before(side, levels[i].price, levels[k].price));
            }
        }
        assert forall|j: int| 0 <= j < res.len() implies (#[trigger] res[j].price == price || has_price(levels, res[j].price)) by {
            if j < i {
                assert(res[j] == levels[j]);
            } else if j > i {
                assert(res[j] == levels[j - 1]);
            }
        }
        assert forall|a: int, b: int|
            0 <= a < b < res.len() implies ranks_before(side, #[trigger] res[a].price, #[trigger] res[b].price) by {
            if b < i {
                assert(res[a] == levels[a] && res[b] == levels[b]);
            } else if b == i {
                assert(res[a] == levels[a]);
            } else if a < i {
                assert(res[a] == levels[a] && res[b] == levels[b - 1]);
            } else if a == i {
                assert(res[b] == levels[b - 1]);
            } else {
                assert(res[a] == levels[a - 1] && res[b] == levels[b - 1]);
            }
        }
        assert forall|a: int| 0 <= a < res.len() implies (#[trigger] res[a]).orders.len() > 0 by {
            if a < i {
                assert(res[a] == levels[a]);
            } else if a > i {
                assert(res[a] == levels[a - 1]);
            }
        }
        assert forall|a: int, k: int|
            0 <= a < res.len() && 0 <= k < res[a].orders.len() implies order_ok(#[trigger] res[a].orders[k], b1) by {
            if a < i {
                assert(res[a] == levels[a]);
                assert(order_ok(levels[a].orders[k], bound));
            } else if a > i {
                assert(res[a] == levels[a - 1]);
                assert(order_ok(levels[a - 1].orders[k], bound));
            }
        }
    }
}

/// A side that is sound under a bound is sound under any larger one.
pub proof fn lemma_side_ok_weaken(levels: Seq<LevelView>, side: OrderSide, bound: u64, larger: u64)
    requires
        side_ok(levels, side, bound),
        bound <= larger,
    ensures
        side_ok(levels, side, larger),
{
    assert forall|i: int, k: int|
        0 <= i < levels.len() && 0 <= k < levels[i].orders.len() implies order_ok(#[trigger] levels[i].orders[k], larger) by {
        assert(order_ok(levels[i].orders[k], bound));
    }
}

/// Removing orders from a FIFO keeps only orders it had, and keeps it as it
/// was when none of them has the ids.
pub proof fn lemma_without(s: Seq<RestingOrder>, client_id: u32, order_id: u64)
    ensures
        forall|j: int| 0 <= j < without(s, client_id, order_id).len() ==> s.contains(
            #[trigger] without(s, client_id, order_id)[j],
        ),
        (forall|k: int| 0 <= k < s.len() ==> keeps(#[trigger] s[k], client_id, order_id)) ==> without(
            s,
            client_id,
            order_id,
        ) == s,
    decreases s.len(),
{
    if s.len() > 0 {
        let t = s.drop_last();
        lemma_without(t, client_id, order_id);
        let w = without(s, client_id, order_id);
        assert forall|j: int| 0 <= j < w.len() implies s.contains(#[trigger] w[j]) by {
            let wt = without(t, client_id, order_id);
            if j < wt.len() {
                assert(t.contains(wt[j]));
                let k = choose|k: int| 0 <= k < t.len() && t[k] == wt[j];
                assert(s[k] == t[k]);
            } else {
                assert(s[s.len() - 1] == w[j]);
            }
        }
        if forall|k: int| 0 <= k < s.len() ==> keeps(#[trigger] s[k], client_id, order_id) {
            assert forall|k: int| 0 <= k < t.len() implies keeps(#[trigger] t[k], client_id, order_id) by {
                assert(t[k] == s[k]);
            }
            assert(keeps(s[s.len() - 1], client_id, order_id));
            assert(t.push(s.last()) =~= s);
        }
    }
}

/// Cancelling on a side keeps it sound under the same bound, keeps only
/// prices it had, and changes nothing when no order has the ids.
pub proof fn lemma_cancel_levels(levels: Seq<LevelView>, side: OrderSide, bound: u64, client_id: u32, order_id: u64)
    requires
        side_ok(levels, side, bound),
    ensures
        side_ok(cancel_levels(levels, client_id, order_id), side, bound),
        forall|j: int|
            0 <= j < cancel_levels(levels, client_id, order_id).len() ==> has_price(
                levels,
                #[trigger] cancel_levels(levels, client_id, order_id)[j].price,
            ),
        (forall|i: int, k: int|
            0 <= i < levels.len() && 0 <= k < levels[i].orders.len() ==> keeps(
                #[trigger] levels[i].orders[k],
                client_id,
                order_id,
            )) ==> cancel_levels(levels, client_id, order_id) == levels,
    decreases levels.len(),
{
    if levels.len() > 0 {
        let t = levels.drop_last();
        let n = levels.len() - 1;
        assert(side_ok(t, side, bound)) by {
            assert forall|i: int, j: int|
                0 <= i < j < t.len() implies ranks_before(side, #[trigger] t[i].price, #[trigger] t[j].price) by {
                assert(t[i] == levels[i] && t[j] == levels[j]);
            }
            assert forall|i: int| 0 <= i < t.len() implies (#[trigger] t[i]).orders.len() > 0 by {
                assert(t[i] == levels[i]);
            }
            assert forall|i: int, k: int|
                0 <= i < t.len() && 0 <= k < t[i].orders.len() implies order_ok(#[trigger] t[i].orders[k], bound) by {
                assert(t[i] == levels[i]);
            }
        }
        lemma_cancel_levels(t, side, bound, client_id, order_id);
        let w = cancel_levels(t, client_id, order_id);
        let last = levels[n];
        lemma_without(last.orders, client_id, order_id);
        let kept = without(last.orders, client_id, order_id);
        let res = cancel_levels(levels, client_id, order_id);
        assert forall|j: int| 0 <= j < w.len() implies has_price(levels, #[trigger] w[j].price) by {
            assert(has_price(t, w[j].price));
            let i = choose|i: int| 0 <= i < t.len() && #[trigger] t[i].price == w[j].price;
            assert(levels[i].price == w[j].price);
        }
        if kept.len() > 0 {
            assert forall|j: int| 0 <= j < res.len() implies has_price(levels, #[trigger] res[j].price) by {
                if j < w.len() {
                    assert(res[j] == w[j]);
                } else {
                    assert(levels[n].price == res[j].price);
                }
            }
            assert forall|a: int, b: int|
                0 <= a < b < res.len() implies ranks_before(side, #[trigger] res[a].price, #[trigger] res[b].price) by {
                assert(res[a] == w[a]);
                if b < w.len() {
                    assert(res[b] == w[b]);
                } else {
                    assert(has_price(t, w[a].price));
                    let i = choose|i: int| 0 <= i < t.len() && #[trigger] t[i].price == w[a].price;
                    assert(ranks_before(side, levels[i].price, levels[n].price));
                }
            }
            assert forall|a: int| 0 <= a < res.len() implies (#[trigger] res[a]).orders.len() > 0 by {
                if a < w.len() {
                    assert(res[a] == w[a]);
                }
            }
            assert forall|a: int, k: int|
                0 <= a < res.len() && 0 <= k < res[a].orders.len() implies order_ok(#[trigger] res[a].orders[k], bound) by {
                if a < w.len() {
                    assert(res[a] == w[a]);
                } else {
                    assert(last.orders.contains(kept[k]));
                    let m = choose|m: int| 0 <= m < last.orders.len() && last.orders[m] == kept[k];
                    assert(order_ok(levels[n].orders[m], bound));
                }
            }
        } else {
            assert(res == w);
        }
        if forall|i: int, k: int|
            0 <= i < levels.len() && 0 <= k < levels[i].orders.len() ==> keeps(
                #[trigger] levels[i].orders[k],
                client_id,
                order_id,
            ) {
            assert forall|i: int, k: int|
                0 <= i < t.len() && 0 <= k < t[i].orders.len() implies keeps(#[trigger] t[i].orders[k], client_id, order_id) by {
                assert(t[i] == levels[i]);
            }
            assert forall|k: int| 0 <= k < last.orders.len() implies keeps(#[trigger] last.orders[k], client_id, order_id) by {
                assert(keeps(levels[n].orders[k], client_id, order_id));
            }
            assert(res =~= levels) by {
                assert(t.push(LevelView { price: last.price, orders: last.orders }) =~= levels);
            }
        }
    }
}

/// An accepted order leaves the book sound: both sides stay in price
/// priority order and the book is not crossed.
pub proof fn lemma_add_keeps_wf(
    b: BookView,
    client_id: u32,
    client_order_id: u64,
    side: OrderSide,
    price: u128,
    quantity: u128,
)
    requires
        b.wf(),
        b.add_ok(side, quantity),
    ensures
        b.after_add(client_id, client_order_id, side, price, quantity).wf(),
{
    let a = b.after_add(client_id, client_order_id, side, price, quantity);
    let bound = b.next_id;
    let b1 = (bound + 1) as u64;
    match side {
        OrderSide::Buy => {
            lemma_fill_levels(b.asks, OrderSide::Sell, side, price, quantity, bound);
            lemma_side_ok_weaken(a.asks, OrderSide::Sell, bound, b1);
            let leaves = fill_levels(b.asks, side, price, quantity).1;
            if leaves > 0 {
                lemma_rest_order(b.bids, side, price, b.new_order(client_id, client_order_id, leaves), bound);
            } else {
                lemma_side_ok_weaken(b.bids, side, bound, b1);
            }
            if a.bids.len() > 0 && a.asks.len() > 0 {
                assert(has_price(b.asks, a.asks[0].price));
                let k = choose|k: int| 0 <= k < b.asks.len() && #[trigger] b.asks[k].price == a.asks[0].price;
                assert(b.asks[0].price <= b.asks[k].price) by {
                    if k > 0 {
                        assert(ranks_before(OrderSide::Sell, b.asks[0].price, b.asks[k].price));
                    }
                }
                if leaves > 0 && a.bids[0].price == price {
                } else {
                    assert(has_price(b.bids, a.bids[0].price));
                    let m = choose|m: int| 0 <= m < b.bids.len() && #[trigger] b.bids[m].price == a.bids[0].price;
                    assert(b.bids[m].price <= b.bids[0].price) by {
                        if m > 0 {
                            assert(ranks_before(OrderSide::Buy, b.bids[0].price, b.bids[m].price));
                        }
                    }
                }
            }
        },
        OrderSide::Sell => {
            lemma_fill_levels(b.bids, OrderSide::Buy, side, price, quantity, bound);
            lemma_side_ok_weaken(a.bids, OrderSide::Buy, bound, b1);
            let leaves = fill_levels(b.bids, side, price, quantity).1;
            if leaves > 0 {
                lemma_rest_order(b.asks, side, price, b.new_order(client_id, client_order_id, leaves), bound);
            } else {
                lemma_side_ok_weaken(b.asks, side, bound, b1);
            }
            if a.bids.len() > 0 && a.asks.len() > 0 {
                assert(has_price(b.bids, a.bids[0].price));
                let m = choose|m: int| 0 <= m < b.bids.len() && #[trigger] b.bids[m].price == a.bids[0].price;
                assert(b.bids[m].price <= b.bids[0].price) by {
                    if m > 0 {
                        assert(ranks_before(OrderSide::Buy, b.bids[0].price, b.bids[m].price));
                    }
                }
                if leaves > 0 && a.asks[0].price == price {
                } else {
                    assert(has_price(b.asks, a.asks[0].price));
                    let k = choose|k: int| 0 <= k < b.asks.len() && #[trigger] b.asks[k].price == a.asks[0].price;
                    assert(b.asks[0].price <= b.asks[k].price) by {
                        if k > 0 {
                            assert(ranks_before(OrderSide::Sell, b.asks[0].price, b.asks[k].price));
                        }
                    }
                }
            }
        },
        OrderSide::Unset => {
            lemma_side_ok_weaken(b.bids, OrderSide::Buy, bound, b1);
            lemma_side_ok_weaken(b.asks, OrderSide::Sell, bound, b1);
        },
    }
}

/// A cancel leaves the book sound.
pub proof fn lemma_cancel_keeps_wf(b: BookView, client_id: u32, order_id: u64)
    requires
        b.wf(),
    ensures
        b.after_cancel(client_id, order_id).wf(),
{
    if cancel_in_range(client_id, order_id) {
        let a = b.after_cancel(client_id, order_id);
        lemma_cancel_levels(b.bids, OrderSide::Buy, b.next_id, client_id, order_id);
        lemma_cancel_levels(b.asks, OrderSide::Sell, b.next_id, client_id, order_id);
        if a.bids.len() > 0 && a.asks.len() > 0 {
            assert(has_price(b.asks, a.asks[0].price));
            let k = choose|k: int| 0 <= k < b.asks.len() && #[trigger] b.asks[k].price == a.asks[0].price;
            assert(b.asks[0].price <= b.asks[k].price) by {
                if k > 0 {
                    assert(ranks_before(OrderSide::Sell, b.asks[0].price, b.asks[k].price));
                }
            }
            assert(has_price(b.bids, a.bids[0].price));
            let m = choose|m: int| 0 <= m < b.bids.len() && #[trigger] b.bids[m].price == a.bids[0].price;
            assert(b.bids[m].price <= b.bids[0].price) by {
                if m > 0 {
                    assert(ranks_before(OrderSide::Buy, b.bids[0].price, b.bids[m].price));
                }
            }
        }
    }
}

// ---- the book ----------------------------------------------------------------------

impl OrderBook {
    /// The book is sound.
    pub open spec fn inv(&self) -> bool {
        self@.wf()
    }

    /// An empty book for `ticker_id`; market order ids start at 1.
    pub fn new(ticker_id: TickerId) -> (book: Self)
        ensures
            book.inv(),
            book@ == new_book(ticker_id),
    {
        let book = Self { ticker_id, bids: Vec::new(), asks: Vec::new(), next_market_order_id: 1 };
        assert(book@.bids =~= Seq::<LevelView>::empty());
        assert(book@.asks =~= Seq::<LevelView>::empty());
        book
    }

    /// Accepts a new order: takes the next market order id, matches the order
    /// against the opposite side in price then time priority, and rests what
    /// is left of it at the tail of its price level on its own side.
    pub fn add(
        &mut self,
        client_id: ClientId,
        client_order_id: OrderId,
        ticker_id: TickerId,
        side: OrderSide,
        price: Price,
        quantity: Qty,
    )
        requires
            old(self).inv(),
            old(self)@.add_ok(side, quantity),
        ensures
            final(self).inv(),
            final(self)@ == old(self)@.after_add(client_id, client_order_id, side, price, quantity),
    {
        proof {
            lemma_add_keeps_wf(self@, client_id, client_order_id, side, price, quantity);
        }
        let ghost b = self@;
        let new_market_order_id = self.generate_new_market_order_id();

        let leaves_qty = self.check_for_match(side, price, quantity);

        if leaves_qty > 0 {
            let order = RestingOrder {
                client_id,
                client_order_id,
                market_order_id: new_market_order_id,
                quantity: leaves_qty,
                priority: 0,
            };
            proof {
                assert(order == b.new_order(client_id, client_order_id, leaves_qty));
                assert(side_ok(b.bids, OrderSide::Buy, b.next_id));
                assert(side_ok(b.asks, OrderSide::Sell, b.next_id));
            }
            match side {
                OrderSide::Buy => Self::add_order(&mut self.bids, side, price, order),
                OrderSide::Sell => Self::add_order(&mut self.asks, side, price, order),
                OrderSide::Unset => {},
            }
        }
        proof {
            assert(self@ =~= b.after_add(client_id, client_order_id, side, price, quantity));
        }
    }

    /// `add` with its condition tested first: returns whether the order went
    /// through, and leaves the book as it was when it did not.
    pub fn try_add(
        &mut self,
        client_id: ClientId,
        client_order_id: OrderId,
        ticker_id: TickerId,
        side: OrderSide,
        price: Price,
        quantity: Qty,
    ) -> (r: bool)
        requires
            old(self).inv(),
        ensures
            final(self).inv(),
            r == old(self)@.add_ok(side, quantity),
            r ==> final(self)@ == old(self)@.after_add(
                client_id,
                client_order_id,
                side,
                price,
                quantity,
            ),
            !r ==> final(self)@ == old(self)@,
    {
        if self.next_market_order_id == 0xffff_ffff_ffff_ffffu64 {
            return false;
        }
        match side {
            OrderSide::Unset => {
                if quantity > 0 {
                    return false;
                }
            },
            _ => {},
        }
        self.add(client_id, client_order_id, ticker_id, side, price, quantity);
        true
    }

    /// Cancels the resting orders `order_id` of client `client_id`: they
    /// leave their levels (a level left empty disappears) and every other
    /// order keeps its place. Ids out of range, or naming no resting order,
    /// leave the book as it was.
    pub fn cancel(&mut self, client_id: ClientId, order_id: OrderId, ticker_id: TickerId)
        requires
            old(self).inv(),
        ensures
            final(self).inv(),
            final(self)@ == old(self)@.after_cancel(client_id, order_id),
    {
        proof {
            lemma_cancel_keeps_wf(self@, client_id, order_id);
        }
        let valid_ids = (client_id as usize) < ME_MAX_NUM_CLIENTS && order_id
            < ME_MAX_ORDER_IDS as u64;
        if valid_ids {
            self.bids = Self::remove_order(&self.bids, client_id, order_id);
            self.asks = Self::remove_order(&self.asks, client_id, order_id);
        }
    }

    /// The market order id the next accepted order takes.
    pub fn next_market_order_id(&self) -> (r: OrderId)
        ensures
            r == self@.next_id,
    {
        self.next_market_order_id
    }

    /// The bid levels, best (highest) first.
    pub fn bids(&self) -> (r: &Vec<PriceLevel>)
        ensures
            levels_view(r@) == self@.bids,
    {
        &self.bids
    }

    /// The ask levels, best (lowest) first.
    pub fn asks(&self) -> (r: &Vec<PriceLevel>)
        ensures
            levels_view(r@) == self@.asks,
    {
        &self.asks
    }

    /// Price of the best bid level, if any.
    pub fn best_bid_price(&self) -> (r: Option<Price>)
        ensures
            r == (if self@.bids.len() > 0 {
                Some(self@.bids[0].price)
            } else {
                None::<u128>
            }),
    {
        if self.bids.len() > 0 {
            Some(self.bids[0].price)
        } else {
            None
        }
    }

    /// Price of the best ask level, if any.
    pub fn best_ask_price(&self) -> (r: Option<Price>)
        ensures
            r == (if self@.asks.len() > 0 {
                Some(self@.asks[0].price)
            } else {
                None::<u128>
            }),
    {
        if self.asks.len() > 0 {
            Some(self.asks[0].price)
        } else {
            None
        }
    }

    fn generate_new_market_order_id(&mut self) -> (id: OrderId)
        requires
            old(self)@.next_id < 0xffff_ffff_ffff_ffffu64,
        ensures
            id == old(self)@.next_id,
            final(self)@ == (BookView { next_id: (old(self)@.next_id + 1) as u64, ..old(self)@ }),
    {
        let id = self.next_market_order_id;
        self.next_market_order_id += 1;
        id
    }

    fn crosses_exec(side: OrderSide, price: Price, level_price: Price) -> (r: bool)
        ensures
            r == crosses(side, price, level_price),
    {
        match side {
            OrderSide::Buy => level_price <= price,
            OrderSide::Sell => level_price >= price,
            OrderSide::Unset => false,
        }
    }

    fn ranks_before_exec(side: OrderSide, a: Price, b: Price) -> (r: bool)
        ensures
            r == ranks_before(side, a, b),
    {
        match side {
            OrderSide::Buy => a > b,
            _ => a < b,
        }
    }

    /// Matches a new order against the opposite side; returns the quantity
    /// left unfilled (all of it when nothing crosses, 0 when it is filled).
    fn check_for_match(&mut self, side: OrderSide, price: Price, quantity: Qty) -> (leaves: Qty)
        ensures
            final(self)@.next_id == old(self)@.next_id,
            final(self)@.ticker_id == old(self)@.ticker_id,
            leaves == old(self)@.add_leaves(side, price, quantity),
            side is Buy ==> final(self)@.asks == fill_levels(old(self)@.asks, side, price, quantity).0
                && final(self)@.bids == old(self)@.bids,
            side is Sell ==> final(self)@.bids == fill_levels(old(self)@.bids, side, price, quantity).0
                && final(self)@.asks == old(self)@.asks,
            side is Unset ==> final(self)@ == old(self)@,
    {
        match side {
            OrderSide::Buy => Self::match_against_side(&mut self.asks, side, price, quantity),
            OrderSide::Sell => Self::match_against_side(&mut self.bids, side, price, quantity),
            OrderSide::Unset => quantity,
        }
    }

    /// Matches against the levels of one side, best first, while they cross
    /// and quantity is left; a used-up level is removed and matching goes on
    /// at the next one.
    fn match_against_side(levels: &mut Vec<PriceLevel>, side: OrderSide, price: Price, quantity: Qty) -> (leaves: Qty)
        ensures
            (levels_view(final(levels)@), leaves) == fill_levels(
                levels_view(old(levels)@),
                side,
                price,
                quantity,
            ),
    {
        let ghost target = fill_levels(levels_view(levels@), side, price, quantity);
        let mut leaves_qty = quantity;
        while leaves_qty > 0 && levels.len() > 0 && Self::crosses_exec(side, price, levels[0].price)
            invariant
                fill_levels(levels_view(levels@), side, price, leaves_qty) == target,
            decreases levels.len() + (if leaves_qty > 0 {
                1int
            } else {
                0int
            }),
        {
            let ghost before = levels_view(levels@);
            let mut level = levels.remove(0);
            proof {
                assert(levels_view(levels@) =~= before.drop_first());
                lemma_fill_orders_shape(level.orders@, leaves_qty);
            }
            leaves_qty = Self::match_order(&mut level.orders, leaves_qty);
            if level.orders.len() > 0 {
                let ghost lv = level@;
                levels.insert(0, level);
                proof {
                    assert(levels_view(levels@) =~= before.update(0, lv));
                }
            }
        }
        leaves_qty
    }

    /// Executes an incoming quantity against a level's FIFO, oldest order
    /// first: each fill is the smaller quantity, is taken off the resting
    /// order, and an order with nothing left leaves the level. Returns what
    /// is left of the incoming quantity.
    fn match_order(orders: &mut Vec<RestingOrder>, leaves_qty: Qty) -> (leaves: Qty)
        ensures
            (final(orders)@, leaves) == fill_orders(old(orders)@, leaves_qty),
    {
        let ghost target = fill_orders(orders@, leaves_qty);
        let mut leaves_qty = leaves_qty;
        while leaves_qty > 0 && orders.len() > 0
            invariant
                fill_orders(orders@, leaves_qty) == target,
            decreases orders.len() + (if leaves_qty > 0 {
                1int
            } else {
                0int
            }),
        {
            let ghost before = orders@;
            let passive = orders[0];
            if passive.quantity <= leaves_qty {
                orders.remove(0);
                leaves_qty = leaves_qty - passive.quantity;
                proof {
                    assert(orders@ =~= before.drop_first());
                }
            } else {
                orders.set(0, RestingOrder { quantity: passive.quantity - leaves_qty, ..passive });
                leaves_qty = 0;
            }
        }
        leaves_qty
    }

    /// Rests an order on one side: at the tail of the level at its price,
    /// with the next priority there, or in a new level at its place in price
    /// priority order.
    fn add_order(levels: &mut Vec<PriceLevel>, side: OrderSide, price: Price, order: RestingOrder)
        requires
            exists|bound: u64| bound < 0xffff_ffff_ffff_ffffu64 && side_ok(levels_view(old(levels)@), side, bound),
        ensures
            levels_view(final(levels)@) == rest_order(levels_view(old(levels)@), side, price, order),
    {
        let ghost v = levels_view(levels@);
        let mut i: usize = 0;
        while i < levels.len() && Self::ranks_before_exec(side, levels[i].price, price)
            invariant
                i <= levels.len(),
                v == levels_view(levels@),
                forall|k: int| 0 <= k < i ==> ranks_before(side, #[trigger] v[k].price, price),
            decreases levels.len() - i,
        {
            i = i + 1;
        }
        proof {
            lemma_level_pos(v, side, price, i as int);
        }
        if i < levels.len() && levels[i].price == price {
            let mut level = levels.remove(i);
            let n = level.orders.len();
            proof {
                let bound = choose|bound: u64| bound < 0xffff_ffff_ffff_ffffu64 && side_ok(v, side, bound);
                assert(v[i as int] == level@);
                assert(n > 0);
                assert(order_ok(v[i as int].orders[n - 1], bound));
            }
            let priority = level.orders[n - 1].priority + 1;
            level.orders.push(RestingOrder { priority, ..order });
            let ghost lv = level@;
            levels.insert(i, level);
            proof {
                assert(levels_view(levels@) =~= v.update(i as int, lv));
            }
        } else {
            Self::insert_price_level(levels, i, price, RestingOrder { priority: 1, ..order });
        }
    }

    /// Opens a level at `price` holding `first`, at position `i`.
    fn insert_price_level(levels: &mut Vec<PriceLevel>, i: usize, price: Price, first: RestingOrder)
        requires
            i <= old(levels)@.len(),
        ensures
            levels_view(final(levels)@) == levels_view(old(levels)@).insert(
                i as int,
                LevelView { price, orders: seq![first] },
            ),
    {
        let ghost v = levels_view(levels@);
        let mut orders: Vec<RestingOrder> = Vec::new();
        orders.push(first);
        let level = PriceLevel { price, orders };
        proof {
            assert(level@.orders =~= seq![first]);
        }
        let ghost lv = level@;
        levels.insert(i, level);
        proof {
            assert(levels_view(levels@) =~= v.insert(i as int, lv));
        }
    }

    /// One side without the orders `order_id` of client `client_id`.
    fn remove_order(levels: &Vec<PriceLevel>, client_id: ClientId, order_id: OrderId) -> (r: Vec<
        PriceLevel,
    >)
        ensures
            levels_view(r@) == cancel_levels(levels_view(levels@), client_id, order_id),
    {
        let ghost v = levels_view(levels@);
        let mut out: Vec<PriceLevel> = Vec::new();
        let mut i: usize = 0;
        while i < levels.len()
            invariant
                i <= levels.len(),
                v == levels_view(levels@),
                levels_view(out@) == cancel_levels(v.take(i as int), client_id, order_id),
            decreases levels.len() - i,
        {
            let kept = Self::orders_without(&levels[i].orders, client_id, order_id);
            proof {
                assert(v.take(i + 1).drop_last() =~= v.take(i as int));
                assert(v.take(i + 1).last() == levels@[i as int]@);
            }
            if kept.len() > 0 {
                let ghost before = levels_view(out@);
                let level = PriceLevel { price: levels[i].price, orders: kept };
                let ghost lv = level@;
                out.push(level);
                proof {
                    assert(levels_view(out@) =~= before.push(lv));
                }
            }
            i = i + 1;
        }
        proof {
            assert(v.take(levels.len() as int) =~= v);
        }
        out
    }

    /// A FIFO without the orders `order_id` of client `client_id`.
    fn orders_without(orders: &Vec<RestingOrder>, client_id: ClientId, order_id: OrderId) -> (r: Vec<
        RestingOrder,
    >)
        ensures
            r@ == without(orders@, client_id, order_id),
    {
        let mut out: Vec<RestingOrder> = Vec::new();
        let mut i: usize = 0;
        while i < orders.len()
            invariant
                i <= orders.len(),
                out@ == without(orders@.take(i as int), client_id, order_id),
            decreases orders.len() - i,
        {
            proof {
                assert(orders@.take(i + 1).drop_last() =~= orders@.take(i as int));
                assert(orders@.take(i + 1).last() == orders@[i as int]);
            }
            let o = orders[i];
            if !(o.client_id == client_id && o.client_order_id == order_id) {
                out.push(o);
            }
            i = i + 1;
        }
        proof {
            assert(orders@.take(orders.len() as int) =~= orders@);
        }
        out
    }
}

/// Leaves after matching against a FIFO are 0 unless the FIFO is used up.
proof fn lemma_fill_orders_shape(orders: Seq<RestingOrder>, qty: u128)
    ensures
        fill_orders(orders, qty).1 > 0 ==> fill_orders(orders, qty).0.len() == 0,
        fill_orders(orders, qty).1 <= qty,
    decreases orders.len(),
{
    if qty > 0 && orders.len() > 0 && orders[0].quantity <= qty {
        lemma_fill_orders_shape(orders.drop_first(), (qty - orders[0].quantity) as u128);
    }
}

} // verus!
