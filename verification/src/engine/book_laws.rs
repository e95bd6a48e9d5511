//! What holds of every order book across its operations.
use vstd::prelude::*;

use crate::common::models::OrderSide;
use crate::common::types::{ME_MAX_NUM_CLIENTS, ME_MAX_ORDER_IDS};
use crate::engine::orderbook::{
    cancel_levels, sum_qty, cross_qty, fill_levels, keeps, lemma_add_keeps_wf,
    lemma_cancel_levels, lemma_fill_levels, lemma_level_pos_bounds, level_pos, rest_order, unfilled,
    without, new_book, BookView, LevelView, RestingOrder,
};

verus! {

/// Every accepted order takes the book's next market order id, so the ids of
/// successive orders are distinct and increasing.
pub proof fn lemma_add_takes_next_market_order_id(
    b: BookView,
    client_id: u32,
    client_order_id: u64,
    side: OrderSide,
    price: u128,
    quantity: u128,
)
    requires
        b.add_ok(side, quantity),
    ensures
        b.after_add(client_id, client_order_id, side, price, quantity).next_id == b.next_id + 1,
{
}

/// Price then time priority fills exactly what crosses: an order is filled
/// by the smaller of its quantity and the quantity resting at the opposite
/// levels it crosses (asks at or below a buy's price, bids at or above a
/// sell's price), so it is never filled beyond its quantity.
pub proof fn lemma_add_fills_crossing_quantity(b: BookView, side: OrderSide, price: u128, quantity: u128)
    requires
        b.wf(),
    ensures
        side is Buy ==> b.add_leaves(side, price, quantity) as int == unfilled(
            quantity as int,
            cross_qty(b.asks, side, price) as int,
        ),
        side is Sell ==> b.add_leaves(side, price, quantity) as int == unfilled(
            quantity as int,
            cross_qty(b.bids, side, price) as int,
        ),
        side is Unset ==> b.add_leaves(side, price, quantity) == quantity,
        b.add_leaves(side, price, quantity) <= quantity,
{
    match side {
        OrderSide::Buy => lemma_fill_levels(b.asks, OrderSide::Sell, side, price, quantity, b.next_id),
        OrderSide::Sell => lemma_fill_levels(b.bids, OrderSide::Buy, side, price, quantity, b.next_id),
        OrderSide::Unset => {},
    }
}

/// An order that crosses no opposite level is not filled at all.
pub proof fn lemma_add_without_cross_fills_nothing(b: BookView, side: OrderSide, price: u128, quantity: u128)
    requires
        b.wf(),
        side is Buy ==> b.asks.len() == 0 || b.asks[0].price > price,
        side is Sell ==> b.bids.len() == 0 || b.bids[0].price < price,
    ensures
        b.add_leaves(side, price, quantity) == quantity,
{
    lemma_add_fills_crossing_quantity(b, side, price, quantity);
}

/// An order of zero quantity matches nothing and rests nowhere: it only
/// uses up a market order id.
pub proof fn lemma_empty_order_only_takes_id(
    b: BookView,
    client_id: u32,
    client_order_id: u64,
    side: OrderSide,
    price: u128,
)
    ensures
        b.after_add(client_id, client_order_id, side, price, 0) == (BookView {
            next_id: (b.next_id + 1) as u64,
            ..b
        }),
{
}

/// Some level of `levels` is at `price` and its last order is `o` but for
/// its priority.
pub open spec fn rests_last(levels: Seq<LevelView>, price: u128, o: RestingOrder) -> bool {
    exists|i: int|
        0 <= i < levels.len() && #[trigger] levels[i].price == price && levels[i].orders.len() > 0
            && (RestingOrder { priority: 0, ..levels[i].orders.last() }) == o
}

/// What is left of an order rests last in the FIFO of the level at its price
/// on its own side, under its ids and the market order id it took.
pub proof fn lemma_remainder_rests_last(
    b: BookView,
    client_id: u32,
    client_order_id: u64,
    side: OrderSide,
    price: u128,
    quantity: u128,
)
    requires
        b.wf(),
        b.add_ok(side, quantity),
        b.add_leaves(side, price, quantity) > 0,
    ensures
        rests_last(
            if side is Buy {
                b.after_add(client_id, client_order_id, side, price, quantity).bids
            } else {
                b.after_add(client_id, client_order_id, side, price, quantity).asks
            },
            price,
            b.new_order(client_id, client_order_id, b.add_leaves(side, price, quantity)),
        ),
{
    let a = b.after_add(client_id, client_order_id, side, price, quantity);
    let levels = if side is Buy {
        b.bids
    } else {
        b.asks
    };
    let own = if side is Buy {
        a.bids
    } else {
        a.asks
    };
    lemma_level_pos_bounds(levels, side, price);
    let i = level_pos(levels, side, price) as int;
    let leaves = b.add_leaves(side, price, quantity);
    let o = b.new_order(client_id, client_order_id, leaves);
    assert(own == rest_order(levels, side, price, o));
    if i < levels.len() && levels[i].price == price {
        assert(own[i].orders.last() == RestingOrder {
            priority: (levels[i].orders.last().priority + 1) as u64,
            ..o
        });
    } else {
        assert(own[i].orders =~= seq![RestingOrder { priority: 1, ..o }]);
    }
    assert(0 <= i < own.len());
    assert(own[i].price == price && own[i].orders.len() > 0 && (RestingOrder {
        priority: 0,
        ..own[i].orders.last()
    }) == o);
}

/// A resting order's FIFO without the orders of some ids holds none of them.
proof fn lemma_without_drops(s: Seq<RestingOrder>, client_id: u32, order_id: u64)
    ensures
        forall|j: int|
            0 <= j < without(s, client_id, order_id).len() ==> keeps(
                #[trigger] without(s, client_id, order_id)[j],
                client_id,
                order_id,
            ),
    decreases s.len(),
{
    if s.len() > 0 {
        let t = s.drop_last();
        lemma_without_drops(t, client_id, order_id);
        let wt = without(t, client_id, order_id);
        let w = without(s, client_id, order_id);
        assert forall|j: int| 0 <= j < w.len() implies keeps(#[trigger] w[j], client_id, order_id) by {
            if j < wt.len() {
                assert(w[j] == wt[j]);
            }
        }
    }
}

/// A side after a cancel holds no order with the cancelled ids.
proof fn lemma_cancel_levels_drops(levels: Seq<LevelView>, client_id: u32, order_id: u64)
    ensures
        forall|i: int, k: int|
            0 <= i < cancel_levels(levels, client_id, order_id).len() && 0 <= k < cancel_levels(
                levels,
                client_id,
                order_id,
            )[i].orders.len() ==> keeps(
                #[trigger] cancel_levels(levels, client_id, order_id)[i].orders[k],
                client_id,
                order_id,
            ),
    decreases levels.len(),
{
    if levels.len() > 0 {
        let t = levels.drop_last();
        lemma_cancel_levels_drops(t, client_id, order_id);
        lemma_without_drops(levels.last().orders, client_id, order_id);
        let w = cancel_levels(t, client_id, order_id);
        let kept = without(levels.last().orders, client_id, order_id);
        let res = cancel_levels(levels, client_id, order_id);
        assert forall|i: int, k: int|
            0 <= i < res.len() && 0 <= k < res[i].orders.len() implies keeps(
                #[trigger] res[i].orders[k],
                client_id,
                order_id,
            ) by {
            if i < w.len() {
                assert(res[i] == w[i]);
            } else {
                assert(res[i].orders == kept);
            }
        }
    }
}

/// After a cancel naming a client below `ME_MAX_NUM_CLIENTS` and an order id
/// below `ME_MAX_ORDER_IDS`, no order with those ids rests on either side.
pub proof fn lemma_cancel_removes_the_order(b: BookView, client_id: u32, order_id: u64)
    requires
        client_id < ME_MAX_NUM_CLIENTS,
        order_id < ME_MAX_ORDER_IDS,
    ensures
        forall|i: int, k: int|
            0 <= i < b.after_cancel(client_id, order_id).bids.len() && 0 <= k < b.after_cancel(
                client_id,
                order_id,
            ).bids[i].orders.len() ==> keeps(
                #[trigger] b.after_cancel(client_id, order_id).bids[i].orders[k],
                client_id,
                order_id,
            ),
        forall|i: int, k: int|
            0 <= i < b.after_cancel(client_id, order_id).asks.len() && 0 <= k < b.after_cancel(
                client_id,
                order_id,
            ).asks[i].orders.len() ==> keeps(
                #[trigger] b.after_cancel(client_id, order_id).asks[i].orders[k],
                client_id,
                order_id,
            ),
{
    lemma_cancel_levels_drops(b.bids, client_id, order_id);
    lemma_cancel_levels_drops(b.asks, client_id, order_id);
}

/// A cancel naming no resting order (or ids out of range) leaves the book
/// exactly as it was.
pub proof fn lemma_cancel_unknown_is_noop(b: BookView, client_id: u32, order_id: u64)
    requires
        b.wf(),
        forall|i: int, k: int|
            0 <= i < b.bids.len() && 0 <= k < b.bids[i].orders.len() ==> keeps(
                #[trigger] b.bids[i].orders[k],
                client_id,
                order_id,
            ),
        forall|i: int, k: int|
            0 <= i < b.asks.len() && 0 <= k < b.asks[i].orders.len() ==> keeps(
                #[trigger] b.asks[i].orders[k],
                client_id,
                order_id,
            ),
    ensures
        b.after_cancel(client_id, order_id) == b,
{
    lemma_cancel_levels(b.bids, OrderSide::Buy, b.next_id, client_id, order_id);
    lemma_cancel_levels(b.asks, OrderSide::Sell, b.next_id, client_id, order_id);
}

// ---- runs of adds ------------------------------------------------------------------

/// The arguments of one `add` call.
pub struct AddCall {
    pub client_id: u32,
    pub client_order_id: u64,
    pub side: OrderSide,
    pub price: u128,
    pub quantity: u128,
}

/// The book after the adds of `calls`, in order, made on `b`.
pub open spec fn after_adds(b: BookView, calls: Seq<AddCall>) -> BookView
    decreases calls.len(),
{
    if calls.len() == 0 {
        b
    } else {
        let c = calls.last();
        after_adds(b, calls.drop_last()).after_add(
            c.client_id,
            c.client_order_id,
            c.side,
            c.price,
            c.quantity,
        )
    }
}

/// Every call names a side, or has no quantity.
pub open spec fn sided(calls: Seq<AddCall>) -> bool {
    forall|i: int|
        0 <= i < calls.len() ==> (#[trigger] calls[i]).side != OrderSide::Unset || calls[i].quantity
            == 0
}

/// Neither side holds an order without quantity, and when both sides hold
/// orders the best bid is below the best ask.
pub open spec fn uncrossed_and_live(b: BookView) -> bool {
    &&& b.bids.len() > 0 && b.asks.len() > 0 ==> b.bids[0].price < b.asks[0].price
    &&& forall|i: int, k: int|
        0 <= i < b.bids.len() && 0 <= k < b.bids[i].orders.len() ==> (
        #[trigger] b.bids[i].orders[k]).quantity > 0
    &&& forall|i: int, k: int|
        0 <= i < b.asks.len() && 0 <= k < b.asks[i].orders.len() ==> (
        #[trigger] b.asks[i].orders[k]).quantity > 0
}

proof fn lemma_prefix_sided(calls: Seq<AddCall>, n: int)
    requires
        sided(calls),
        0 <= n <= calls.len(),
    ensures
        sided(calls.take(n)),
{
    assert forall|i: int| 0 <= i < calls.take(n).len() implies (#[trigger] calls.take(n)[i]).side
        != OrderSide::Unset || calls.take(n)[i].quantity == 0 by {
        assert(calls.take(n)[i] == calls[i]);
    }
}

proof fn lemma_after_adds_step(b: BookView, calls: Seq<AddCall>)
    requires
        sided(calls),
        b.next_id + calls.len() < 0xffff_ffff_ffff_ffffu64,
    ensures
        after_adds(b, calls).next_id == b.next_id + calls.len(),
        b.wf() ==> after_adds(b, calls).wf(),
    decreases calls.len(),
{
    if calls.len() > 0 {
        let p = calls.drop_last();
        lemma_prefix_sided(calls, calls.len() - 1);
        assert(p == calls.take(calls.len() - 1));
        lemma_after_adds_step(b, p);
        let c = calls.last();
        assert(c == calls[calls.len() - 1]);
        let a = after_adds(b, p);
        assert(a.add_ok(c.side, c.quantity));
        if b.wf() {
            lemma_add_keeps_wf(a, c.client_id, c.client_order_id, c.side, c.price, c.quantity);
        }
    }
}

/// Market order ids count up by one from the book's counter: before the
/// `i`-th add of a run (counted from 0) the counter stands at
/// `b.next_id + i`, which is the id that add takes, and every add of the run
/// can be made, however many orders rest. The run only needs each order to
/// name a side (or have no quantity) and the counter to stay below
/// `u64::MAX`.
pub proof fn lemma_market_order_ids_count_up(b: BookView, calls: Seq<AddCall>)
    requires
        sided(calls),
        b.next_id + calls.len() < 0xffff_ffff_ffff_ffffu64,
    ensures
        forall|i: int|
            0 <= i <= calls.len() ==> (#[trigger] after_adds(b, calls.take(i))).next_id == b.next_id
                + i,
        forall|i: int|
            0 <= i < calls.len() ==> (#[trigger] after_adds(b, calls.take(i))).add_ok(
                calls[i].side,
                calls[i].quantity,
            ),
{
    assert forall|i: int| 0 <= i <= calls.len() implies (#[trigger] after_adds(
        b,
        calls.take(i),
    )).next_id == b.next_id + i by {
        lemma_prefix_sided(calls, i);
        lemma_after_adds_step(b, calls.take(i));
    }
    assert forall|i: int| 0 <= i < calls.len() implies (#[trigger] after_adds(
        b,
        calls.take(i),
    )).add_ok(calls[i].side, calls[i].quantity) by {
        lemma_prefix_sided(calls, i);
        lemma_after_adds_step(b, calls.take(i));
    }
}

/// On a new book the market order ids are 1, 2, 3, ... in call order: the
/// `i`-th add of a run (counted from 0) takes id `i + 1`.
pub proof fn lemma_new_book_ids_start_at_one(ticker_id: u32, calls: Seq<AddCall>)
    requires
        sided(calls),
        calls.len() + 1 < 0xffff_ffff_ffff_ffffu64,
    ensures
        forall|i: int|
            0 <= i < calls.len() ==> (#[trigger] after_adds(new_book(ticker_id), calls.take(i))).next_id
                == i + 1,
{
    lemma_market_order_ids_count_up(new_book(ticker_id), calls);
    assert forall|i: int| 0 <= i < calls.len() implies (#[trigger] after_adds(
        new_book(ticker_id),
        calls.take(i),
    )).next_id == i + 1 by {
        assert(0 <= i <= calls.len());
    }
}

/// A new book is sound, and so neither crossed nor holding a dead order.
pub proof fn lemma_new_book_is_sound(ticker_id: u32)
    ensures
        new_book(ticker_id).wf(),
        uncrossed_and_live(new_book(ticker_id)),
{
}

/// A sound book stays sound after every add of a run: it is never crossed
/// (whenever both sides hold orders the best bid is below the best ask) and
/// no order without quantity rests.
pub proof fn lemma_adds_never_cross(b: BookView, calls: Seq<AddCall>)
    requires
        b.wf(),
        sided(calls),
        b.next_id + calls.len() < 0xffff_ffff_ffff_ffffu64,
    ensures
        forall|i: int|
            0 <= i <= calls.len() ==> uncrossed_and_live(#[trigger] after_adds(b, calls.take(i))),
{
    assert forall|i: int| 0 <= i <= calls.len() implies uncrossed_and_live(
        #[trigger] after_adds(b, calls.take(i)),
    ) by {
        lemma_prefix_sided(calls, i);
        lemma_after_adds_step(b, calls.take(i));
        let a = after_adds(b, calls.take(i));
        assert forall|j: int, k: int|
            0 <= j < a.bids.len() && 0 <= k < a.bids[j].orders.len() implies (
            #[trigger] a.bids[j].orders[k]).quantity > 0 by {}
        assert forall|j: int, k: int|
            0 <= j < a.asks.len() && 0 <= k < a.asks[j].orders.len() implies (
            #[trigger] a.asks[j].orders[k]).quantity > 0 by {}
    }
}

// ---- time priority -------------------------------------------------------------------

/// The oldest order of a level after a fill of `qty` that leaves part of it.
pub open spec fn cut_head(lv: LevelView, qty: u128) -> LevelView {
    LevelView {
        orders: lv.orders.update(
            0,
            RestingOrder { quantity: (lv.orders[0].quantity - qty) as u128, ..lv.orders[0] },
        ),
        ..lv
    }
}

/// Time priority survives a partial fill: an order that crosses the best
/// opposite level and is smaller than that level's oldest order fills only
/// from it; that order stays first in its level with its quantity reduced by
/// the fill, every other order and level keeps its place, and nothing rests
/// on the order's own side.
pub proof fn lemma_partial_fill_keeps_time_priority(
    b: BookView,
    client_id: u32,
    client_order_id: u64,
    side: OrderSide,
    price: u128,
    quantity: u128,
)
    requires
        b.wf(),
        b.add_ok(side, quantity),
        0 < quantity,
        side is Buy ==> b.asks.len() > 0 && b.asks[0].price <= price && quantity
            < b.asks[0].orders[0].quantity,
        side is Sell ==> b.bids.len() > 0 && b.bids[0].price >= price && quantity
            < b.bids[0].orders[0].quantity,
    ensures
        side is Buy ==> b.after_add(client_id, client_order_id, side, price, quantity).asks
            == b.asks.update(0, cut_head(b.asks[0], quantity)) && b.after_add(
            client_id,
            client_order_id,
            side,
            price,
            quantity,
        ).bids == b.bids,
        side is Sell ==> b.after_add(client_id, client_order_id, side, price, quantity).bids
            == b.bids.update(0, cut_head(b.bids[0], quantity)) && b.after_add(
            client_id,
            client_order_id,
            side,
            price,
            quantity,
        ).asks == b.asks,
{
    if side is Buy {
        let lv = b.asks[0];
        assert(lv.orders.len() > 0);
        assert(crate::engine::orderbook::fill_orders(lv.orders, quantity) == (
            cut_head(lv, quantity).orders,
            0u128,
        ));
        assert(fill_levels(b.asks, side, price, quantity) == (
            b.asks.update(0, cut_head(lv, quantity)),
            0u128,
        ));
    } else if side is Sell {
        let lv = b.bids[0];
        assert(lv.orders.len() > 0);
        assert(crate::engine::orderbook::fill_orders(lv.orders, quantity) == (
            cut_head(lv, quantity).orders,
            0u128,
        ));
        assert(fill_levels(b.bids, side, price, quantity) == (
            b.bids.update(0, cut_head(lv, quantity)),
            0u128,
        ));
    }
}

/// The orders of a level after matching with its `k` oldest orders taken
/// off and `cut` (when positive) filled from the oldest of those left.
pub open spec fn level_after_fill(orders: Seq<RestingOrder>, k: int, cut: int) -> Seq<RestingOrder> {
    if cut == 0 {
        orders.skip(k)
    } else {
        orders.skip(k).update(
            0,
            RestingOrder { quantity: (orders[k].quantity - cut) as u128, ..orders[k] },
        )
    }
}

/// Matching takes a level's orders oldest first: for some `k`, the `k`
/// oldest orders are filled completely and leave the level, then at most
/// one more fill of `cut`, smaller than the quantity of the oldest order
/// left, is taken from that order, which keeps its place at the head; every
/// later order keeps its place and quantity. The incoming quantity is
/// accounted for exactly: the `k` orders, the cut and what is left over add
/// up to it, and something is left over only when the level is used up.
pub proof fn lemma_fill_takes_oldest_first(orders: Seq<RestingOrder>, qty: u128) -> (k: int)
    ensures
        0 <= k <= orders.len(),
        ({
            let (rest, left) = crate::engine::orderbook::fill_orders(orders, qty);
            exists|cut: int|
                {
                    &&& 0 <= cut
                    &&& cut > 0 ==> k < orders.len() && cut < orders[k].quantity
                    &&& rest == level_after_fill(orders, k, cut)
                    &&& sum_qty(orders.take(k)) + cut + left == qty
                    &&& left > 0 ==> k == orders.len() && cut == 0
                }
        }),
    decreases orders.len(),
{
    if qty == 0 || orders.len() == 0 {
        assert(orders.skip(0) =~= orders);
        assert(orders.take(0) =~= Seq::<RestingOrder>::empty());
        assert(level_after_fill(orders, 0, 0) == orders);
        0
    } else if orders[0].quantity <= qty {
        let t = orders.drop_first();
        let q1 = (qty - orders[0].quantity) as u128;
        let k1 = lemma_fill_takes_oldest_first(t, q1);
        let k = k1 + 1;
        let (rest, left) = crate::engine::orderbook::fill_orders(t, q1);
        let cut = choose|cut: int|
            {
                &&& 0 <= cut
                &&& cut > 0 ==> k1 < t.len() && cut < t[k1].quantity
                &&& rest == level_after_fill(t, k1, cut)
                &&& sum_qty(t.take(k1)) + cut + left == q1
                &&& left > 0 ==> k1 == t.len() && cut == 0
            };
        assert(orders.skip(k) =~= t.skip(k1));
        assert(orders.take(k).drop_first() =~= t.take(k1));
        assert(orders.take(k)[0] == orders[0]);
        assert(sum_qty(orders.take(k)) == orders[0].quantity + sum_qty(t.take(k1)));
        if cut > 0 {
            assert(orders[k] == t[k1]);
        }
        assert(level_after_fill(orders, k, cut) == level_after_fill(t, k1, cut));
        k
    } else {
        assert(orders.skip(0) =~= orders);
        assert(orders.take(0) =~= Seq::<RestingOrder>::empty());
        assert(level_after_fill(orders, 0, qty as int) == orders.update(
            0,
            RestingOrder { quantity: (orders[0].quantity - qty) as u128, ..orders[0] },
        ));
        0
    }
}

/// A FIFO without some ids still holds every order that does not carry them.
proof fn lemma_without_keeps_others(s: Seq<RestingOrder>, client_id: u32, order_id: u64)
    ensures
        forall|j: int|
            0 <= j < s.len() && keeps(#[trigger] s[j], client_id, order_id) ==> without(
                s,
                client_id,
                order_id,
            ).contains(s[j]),
    decreases s.len(),
{
    if s.len() > 0 {
        let t = s.drop_last();
        lemma_without_keeps_others(t, client_id, order_id);
        let w = without(t, client_id, order_id);
        assert forall|j: int|
            0 <= j < s.len() && keeps(#[trigger] s[j], client_id, order_id) implies without(
            s,
            client_id,
            order_id,
        ).contains(s[j]) by {
            if j < t.len() {
                assert(t[j] == s[j]);
                let m = choose|m: int| 0 <= m < w.len() && w[m] == t[j];
                if keeps(s.last(), client_id, order_id) {
                    assert(w.push(s.last())[m] == s[j]);
                }
            } else {
                assert(w.push(s.last())[w.len() as int] == s[j]);
            }
        }
    }
}

/// A side after a cancel still holds, at the same price, every order that
/// does not carry the cancelled ids.
proof fn lemma_cancel_levels_keeps_others(levels: Seq<LevelView>, client_id: u32, order_id: u64)
    ensures
        forall|i: int, k: int|
            0 <= i < levels.len() && 0 <= k < levels[i].orders.len() && keeps(
                #[trigger] levels[i].orders[k],
                client_id,
                order_id,
            ) ==> exists|i2: int|
                0 <= i2 < cancel_levels(levels, client_id, order_id).len() && #[trigger] cancel_levels(
                    levels,
                    client_id,
                    order_id,
                )[i2].price == levels[i].price && cancel_levels(levels, client_id, order_id)[i2].orders.contains(
                    levels[i].orders[k],
                ),
    decreases levels.len(),
{
    if levels.len() > 0 {
        let t = levels.drop_last();
        lemma_cancel_levels_keeps_others(t, client_id, order_id);
        lemma_without_keeps_others(levels.last().orders, client_id, order_id);
        let w = cancel_levels(t, client_id, order_id);
        let kept = without(levels.last().orders, client_id, order_id);
        let res = cancel_levels(levels, client_id, order_id);
        assert forall|i: int, k: int|
            0 <= i < levels.len() && 0 <= k < levels[i].orders.len() && keeps(
                #[trigger] levels[i].orders[k],
                client_id,
                order_id,
            ) implies exists|i2: int|
                0 <= i2 < res.len() && #[trigger] res[i2].price == levels[i].price
                    && res[i2].orders.contains(levels[i].orders[k]) by {
            if i < t.len() {
                assert(t[i] == levels[i]);
                assert(t[i].orders[k] == levels[i].orders[k]);
                let i2 = choose|i2: int|
                    0 <= i2 < w.len() && #[trigger] w[i2].price == t[i].price && w[i2].orders.contains(
                        t[i].orders[k],
                    );
                assert(res[i2] == w[i2]);
            } else {
                assert(levels[i].orders[k] == levels.last().orders[k]);
                assert(kept.contains(levels.last().orders[k]));
                assert(kept.len() > 0);
                assert(res[w.len() as int].price == levels[i].price);
            }
        }
    }
}

/// A cancel removes nothing else: every order on either side that does not
/// carry the cancelled ids still rests, at its price.
pub proof fn lemma_cancel_keeps_other_orders(b: BookView, client_id: u32, order_id: u64)
    ensures
        forall|i: int, k: int|
            0 <= i < b.bids.len() && 0 <= k < b.bids[i].orders.len() && keeps(
                #[trigger] b.bids[i].orders[k],
                client_id,
                order_id,
            ) ==> exists|i2: int|
                0 <= i2 < b.after_cancel(client_id, order_id).bids.len()
                    && #[trigger] b.after_cancel(client_id, order_id).bids[i2].price
                    == b.bids[i].price && b.after_cancel(client_id, order_id).bids[i2].orders.contains(
                    b.bids[i].orders[k],
                ),
        forall|i: int, k: int|
            0 <= i < b.asks.len() && 0 <= k < b.asks[i].orders.len() && keeps(
                #[trigger] b.asks[i].orders[k],
                client_id,
                order_id,
            ) ==> exists|i2: int|
                0 <= i2 < b.after_cancel(client_id, order_id).asks.len()
                    && #[trigger] b.after_cancel(client_id, order_id).asks[i2].price
                    == b.asks[i].price && b.after_cancel(client_id, order_id).asks[i2].orders.contains(
                    b.asks[i].orders[k],
                ),
{
    lemma_cancel_levels_keeps_others(b.bids, client_id, order_id);
    lemma_cancel_levels_keeps_others(b.asks, client_id, order_id);
    let a = b.after_cancel(client_id, order_id);
    let in_range = crate::engine::orderbook::cancel_in_range(client_id, order_id);
    assert forall|i: int, k: int|
        0 <= i < b.bids.len() && 0 <= k < b.bids[i].orders.len() && keeps(
            #[trigger] b.bids[i].orders[k],
            client_id,
            order_id,
        ) implies exists|i2: int|
            0 <= i2 < a.bids.len() && #[trigger] a.bids[i2].price == b.bids[i].price
                && a.bids[i2].orders.contains(b.bids[i].orders[k]) by {
        if in_range {
            let c = cancel_levels(b.bids, client_id, order_id);
            assert(a.bids == c);
            let i2 = choose|i2: int|
                0 <= i2 < c.len() && #[trigger] c[i2].price == b.bids[i].price && c[i2].orders.contains(
                    b.bids[i].orders[k],
                );
            assert(a.bids[i2].price == b.bids[i].price);
        } else {
            assert(a.bids[i].orders[k] == b.bids[i].orders[k]);
        }
    }
    assert forall|i: int, k: int|
        0 <= i < b.asks.len() && 0 <= k < b.asks[i].orders.len() && keeps(
            #[trigger] b.asks[i].orders[k],
            client_id,
            order_id,
        ) implies exists|i2: int|
            0 <= i2 < a.asks.len() && #[trigger] a.asks[i2].price == b.asks[i].price
                && a.asks[i2].orders.contains(b.asks[i].orders[k]) by {
        if in_range {
            let c = cancel_levels(b.asks, client_id, order_id);
            assert(a.asks == c);
            let i2 = choose|i2: int|
                0 <= i2 < c.len() && #[trigger] c[i2].price == b.asks[i].price && c[i2].orders.contains(
                    b.asks[i].orders[k],
                );
            assert(a.asks[i2].price == b.asks[i].price);
        } else {
            assert(a.asks[i].orders[k] == b.asks[i].orders[k]);
        }
    }
}

} // verus!
