use exchange::common::create_order::AcceptedOrder;
use exchange::common::mem_pool::POOL_IDX_NULL;
use exchange::common::models::{OrderSide, OrderType};
use exchange::common::queue::{QueueProducer, RingBufferQueue};
use exchange::engine::asset::{str_equal, Asset};
use exchange::engine::config::Args;
use exchange::engine::matching_engine::{EngineStep, MatchingEngine};
use exchange::engine::order_at_price::PriceOrderAtPrice;
use exchange::engine::request::EngineRequest;

fn order(ticker: u32, side: OrderSide, price: u128, qty: u128, coid: u64) -> EngineRequest {
    EngineRequest::NewOrder(AcceptedOrder::new(
        price,
        qty,
        0,
        coid,
        0,
        1,
        ticker,
        side,
        OrderType::LIMIT,
    ))
}

#[test]
fn engine_routes_requests_to_their_book() {
    let queue: RingBufferQueue<EngineRequest> = RingBufferQueue::new(16);
    let mut producer = queue.producer;
    let mut engine = MatchingEngine::new(queue.consumer);
    assert!(matches!(engine.poll_once(), EngineStep::Empty));
    assert!(producer.push(order(2, OrderSide::Buy, 100, 5, 1)).is_ok());
    assert!(matches!(engine.poll_once(), EngineStep::Processed(_)));
    assert_eq!(engine.book(2).next_market_order_id(), 2);
    assert_eq!(engine.book(2).best_bid_price(), Some(100));
    // the other books are untouched
    assert_eq!(engine.book(1).next_market_order_id(), 1);
    assert_eq!(engine.book(1).best_bid_price(), None);
    assert!(matches!(engine.poll_once(), EngineStep::Empty));
}

#[test]
fn engine_fails_on_an_unknown_ticker() {
    let queue: RingBufferQueue<EngineRequest> = RingBufferQueue::new(4);
    let mut producer = queue.producer;
    let mut engine = MatchingEngine::new(queue.consumer);
    assert!(producer.push(order(99, OrderSide::Buy, 100, 5, 1)).is_ok());
    assert!(matches!(engine.poll_once(), EngineStep::Failed(_)));
}

#[test]
fn process_order_matches_try_process_order() {
    let q1: RingBufferQueue<EngineRequest> = RingBufferQueue::new(1);
    let q2: RingBufferQueue<EngineRequest> = RingBufferQueue::new(1);
    let mut a = MatchingEngine::new(q1.consumer);
    let mut b = MatchingEngine::new(q2.consumer);
    a.process_order(order(0, OrderSide::Sell, 300, 2, 1));
    assert!(b.try_process_order(order(0, OrderSide::Sell, 300, 2, 1)));
    assert_eq!(a.book(0).best_ask_price(), b.book(0).best_ask_price());
    assert_eq!(a.book(0).next_market_order_id(), b.book(0).next_market_order_id());
    assert!(!b.try_process_order(order(8, OrderSide::Sell, 300, 2, 2)));
}

#[test]
fn each_ticker_has_its_own_book() {
    let q: RingBufferQueue<EngineRequest> = RingBufferQueue::new(1);
    let engine = MatchingEngine::new(q.consumer);
    for t in 0..8usize {
        assert_eq!(engine.book(t).ticker_id as usize, t);
    }
}

#[test]
fn asset_names_parse() {
    assert_eq!(Asset::from_str("USDC"), Ok(Asset::USDC));
    assert_eq!(Asset::from_str("USDT"), Ok(Asset::USDT));
    assert_eq!(Asset::from_str("BTC"), Ok(Asset::BTC));
    assert_eq!(Asset::from_str("ETH"), Ok(Asset::ETH));
    assert_eq!(Asset::from_str("SOL"), Ok(Asset::SOL));
    assert_eq!(Asset::from_str("btc"), Err("unsupported asset"));
    assert_eq!(Asset::from_str(""), Err("unsupported asset"));
    assert!(str_equal("abc", "abc"));
    assert!(!str_equal("abc", "abd"));
}

#[test]
fn price_slots_start_empty() {
    let slots = PriceOrderAtPrice::new();
    assert_eq!(slots.get_orders_at_price(0), POOL_IDX_NULL);
    assert_eq!(slots.get_orders_at_price(255), POOL_IDX_NULL);
}

#[test]
fn default_engine_args() {
    let args = Args::default();
    assert_eq!(args.interface, "any");
    assert_eq!(args.multicast_group, "239.1.1.1");
    assert_eq!(args.port, 9000);
    assert_eq!(args.buf_size, 4096);
    assert_eq!(args.max_msg_size, 1024);
    assert_eq!(args.reconnect_delay_secs, 5);
    assert_eq!(args.metrics_port, 9001);
}
