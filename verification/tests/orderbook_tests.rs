use exchange::common::models::OrderSide;
use exchange::engine::orderbook::{OrderBook, PriceLevel, RestingOrder};
use exchange::gateway::mock_api::sample_orders;

/// (price, [(client, client order id, quantity)]) of each level, best first.
fn levels(side: &Vec<PriceLevel>) -> Vec<(u128, Vec<(u32, u64, u128)>)> {
    side.iter()
        .map(|l| {
            (l.price, l.orders.iter().map(|o: &RestingOrder| (o.client_id, o.client_order_id, o.quantity)).collect())
        })
        .collect()
}

#[test]
fn new_book_is_empty() {
    let book = OrderBook::new(3);
    assert_eq!(book.ticker_id, 3);
    assert_eq!(book.next_market_order_id(), 1);
    assert_eq!(book.best_bid_price(), None);
    assert_eq!(book.best_ask_price(), None);
    assert!(book.bids().is_empty() && book.asks().is_empty());
}

#[test]
fn order_on_empty_book_rests_at_a_new_level() {
    let mut book = OrderBook::new(0);
    assert!(book.try_add(1, 1, 0, OrderSide::Buy, 100, 10));
    assert_eq!(book.next_market_order_id(), 2);
    assert_eq!(levels(book.bids()), vec![(100, vec![(1, 1, 10)])]);
    assert_eq!(book.bids()[0].orders[0].market_order_id, 1);
    assert_eq!(book.bids()[0].orders[0].priority, 1);
    assert!(book.asks().is_empty());
}

#[test]
fn partial_fill_reduces_the_resting_order() {
    let mut b = OrderBook::new(0);
    b.add(1, 7, 0, OrderSide::Sell, 50000, 300);
    b.add(2, 8, 0, OrderSide::Buy, 50000, 100);
    assert_eq!(levels(b.asks()), vec![(50000, vec![(1, 7, 200)])]);
    assert!(b.bids().is_empty());
}

#[test]
fn sell_above_the_best_bid_does_not_cross() {
    let mut b = OrderBook::new(0);
    b.add(1, 1, 0, OrderSide::Buy, 100, 10);
    b.add(2, 1, 0, OrderSide::Sell, 110, 10);
    assert_eq!(levels(b.bids()), vec![(100, vec![(1, 1, 10)])]);
    assert_eq!(levels(b.asks()), vec![(110, vec![(2, 1, 10)])]);
}

#[test]
fn sell_below_the_best_bid_trades() {
    let mut b = OrderBook::new(0);
    b.add(1, 1, 0, OrderSide::Buy, 100, 10);
    b.add(2, 1, 0, OrderSide::Sell, 90, 4);
    assert_eq!(levels(b.bids()), vec![(100, vec![(1, 1, 6)])]);
    assert!(b.asks().is_empty());
}

#[test]
fn levels_are_kept_in_price_priority_order() {
    let mut b = OrderBook::new(0);
    b.add(1, 1, 0, OrderSide::Buy, 100, 1);
    b.add(1, 2, 0, OrderSide::Buy, 102, 1);
    b.add(1, 3, 0, OrderSide::Buy, 101, 1);
    b.add(2, 1, 0, OrderSide::Sell, 110, 1);
    b.add(2, 2, 0, OrderSide::Sell, 105, 1);
    b.add(2, 3, 0, OrderSide::Sell, 107, 1);
    let bid_prices: Vec<u128> = b.bids().iter().map(|l| l.price).collect();
    let ask_prices: Vec<u128> = b.asks().iter().map(|l| l.price).collect();
    assert_eq!(bid_prices, vec![102, 101, 100]);
    assert_eq!(ask_prices, vec![105, 107, 110]);
    assert_eq!(b.best_bid_price(), Some(102));
    assert_eq!(b.best_ask_price(), Some(105));
}

#[test]
fn price_then_time_priority_across_levels() {
    let mut b = OrderBook::new(0);
    b.add(1, 1, 0, OrderSide::Sell, 101, 5);
    b.add(1, 2, 0, OrderSide::Sell, 100, 5);
    b.add(2, 1, 0, OrderSide::Buy, 101, 7);
    assert_eq!(levels(b.asks()), vec![(101, vec![(1, 1, 3)])]);
    assert!(b.bids().is_empty());
}

#[test]
fn same_price_orders_queue_in_arrival_order() {
    let mut b = OrderBook::new(0);
    b.add(1, 1, 0, OrderSide::Buy, 100, 10);
    b.add(2, 1, 0, OrderSide::Buy, 100, 5);
    assert_eq!(levels(b.bids()), vec![(100, vec![(1, 1, 10), (2, 1, 5)])]);
    assert_eq!(b.bids()[0].orders[1].priority, 2);
    // a sell takes the oldest order first
    b.add(3, 1, 0, OrderSide::Sell, 100, 12);
    assert_eq!(levels(b.bids()), vec![(100, vec![(2, 1, 3)])]);
}

#[test]
fn remainder_of_a_sweep_rests_on_its_own_side() {
    let mut b = OrderBook::new(0);
    b.add(0, 3, 0, OrderSide::Sell, 23600, 50);
    b.add(0, 4, 0, OrderSide::Buy, 23600, 100);
    assert!(b.asks().is_empty());
    assert_eq!(levels(b.bids()), vec![(23600, vec![(0, 4, 50)])]);
}

#[test]
fn filled_orders_leave_the_book() {
    let mut b = OrderBook::new(0);
    for _ in 0..20000 {
        b.add(1, 1, 0, OrderSide::Sell, 100, 1);
        b.add(2, 1, 0, OrderSide::Buy, 100, 1);
    }
    assert!(b.bids().is_empty() && b.asks().is_empty());
    assert_eq!(b.next_market_order_id(), 40001);
}

#[test]
fn each_order_takes_the_next_market_order_id() {
    let mut book = OrderBook::new(0);
    for k in 0..5u64 {
        assert_eq!(book.next_market_order_id(), 1 + k);
        assert!(book.try_add(1, k, 0, OrderSide::Buy, 100 + k as u128, 1));
    }
    assert_eq!(book.next_market_order_id(), 6);
}

#[test]
fn unset_side_with_quantity_is_refused_and_changes_nothing() {
    let mut book = OrderBook::new(0);
    assert!(!book.try_add(1, 1, 0, OrderSide::Unset, 100, 3));
    assert_eq!(book.next_market_order_id(), 1);
    assert!(book.try_add(1, 1, 0, OrderSide::Unset, 100, 0));
    assert_eq!(book.next_market_order_id(), 2);
}

#[test]
fn zero_quantity_order_only_takes_an_id() {
    let mut book = OrderBook::new(0);
    book.add(1, 1, 0, OrderSide::Sell, 100, 5);
    assert!(book.try_add(2, 1, 0, OrderSide::Buy, 100, 0));
    assert_eq!(book.next_market_order_id(), 3);
    assert_eq!(levels(book.asks()), vec![(100, vec![(1, 1, 5)])]);
}

#[test]
fn cancel_removes_a_resting_order() {
    let mut b = OrderBook::new(0);
    b.add(1, 1, 0, OrderSide::Buy, 100, 10);
    b.add(2, 1, 0, OrderSide::Buy, 100, 5);
    b.add(1, 2, 0, OrderSide::Buy, 99, 5);
    b.cancel(1, 1, 0);
    assert_eq!(levels(b.bids()), vec![(100, vec![(2, 1, 5)]), (99, vec![(1, 2, 5)])]);
    b.cancel(2, 1, 0);
    assert_eq!(levels(b.bids()), vec![(99, vec![(1, 2, 5)])]);
    assert_eq!(b.best_bid_price(), Some(99));
}

#[test]
fn cancel_of_an_unknown_order_changes_nothing() {
    let mut b = OrderBook::new(0);
    b.cancel(5, 9, 0);
    b.cancel(1000, 1 << 40, 0);
    assert!(b.bids().is_empty() && b.asks().is_empty());
    b.add(1, 1, 0, OrderSide::Sell, 100, 5);
    b.cancel(1, 2, 0);
    b.cancel(1000, 1, 0);
    assert_eq!(levels(b.asks()), vec![(100, vec![(1, 1, 5)])]);
}

#[test]
fn sample_batch_on_one_book() {
    let mut book = OrderBook::new(0);
    for o in sample_orders() {
        assert!(book.try_add(o.client_id, o.client_order_id, o.ticker_id, o.side, o.price, o.quantity));
    }
    // 23600: sell 100 and buy 100 match; sell 50 and buy 100 leave a bid of 50.
    // 50000: the sells do not reach that bid; buy 200 at 50100 takes the
    // first sell, and buy 100 takes 100 of the sell of 300.
    assert_eq!(levels(book.bids()), vec![(23600, vec![(0, 4, 50)])]);
    assert_eq!(levels(book.asks()), vec![(50000, vec![(1, 7, 200)])]);
}

#[test]
fn many_matched_pairs_never_run_the_book_out_of_room() {
    let mut b = OrderBook::new(1);
    for _ in 0..20000 {
        b.add(1, 1, 1, OrderSide::Sell, 100, 1);
        b.add(2, 1, 1, OrderSide::Buy, 100, 1);
    }
    assert!(b.bids().is_empty() && b.asks().is_empty());
    assert_eq!(b.next_market_order_id(), 40001);
}

#[test]
fn market_order_ids_run_one_two_three() {
    let mut b = OrderBook::new(0);
    let prices = [100u128, 90, 110, 95, 105];
    for (k, p) in prices.iter().enumerate() {
        b.add(1, k as u64, 0, OrderSide::Buy, *p, 5);
        assert_eq!(b.next_market_order_id(), k as u64 + 2);
    }
    let mut ids: Vec<u64> = b.bids().iter().flat_map(|l| l.orders.iter().map(|o| o.market_order_id)).collect();
    ids.sort();
    assert_eq!(ids, vec![1, 2, 3, 4, 5]);
}

#[test]
fn book_is_never_crossed_after_a_run_of_adds() {
    let mut b = OrderBook::new(0);
    let run = [
        (OrderSide::Buy, 100u128, 5u128),
        (OrderSide::Sell, 102, 3),
        (OrderSide::Sell, 99, 7),
        (OrderSide::Buy, 103, 10),
        (OrderSide::Sell, 101, 1),
        (OrderSide::Buy, 101, 2),
    ];
    for (k, (side, price, qty)) in run.iter().enumerate() {
        b.add(3, k as u64, 0, *side, *price, *qty);
        if let (Some(bid), Some(ask)) = (b.best_bid_price(), b.best_ask_price()) {
            assert!(bid < ask);
        }
        for l in b.bids().iter().chain(b.asks().iter()) {
            assert!(l.orders.iter().all(|o| o.quantity > 0));
        }
    }
}
