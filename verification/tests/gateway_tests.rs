use std::cell::{Cell, RefCell};
use std::rc::Rc;
use std::sync::Arc;

use crossbeam::queue::ArrayQueue;
use exchange::common::error::{Disposition, RejectReason};
use exchange::common::models::{OrderSide, OrderType};
use exchange::common::new_order::{NewOrder, NewOrderMessage};
use exchange::common::queue::{QueueConsumer, QueueProducer, RingBufferQueue};
use exchange::engine::error::ProgramError as EngineError;
use exchange::engine::transport::OrderSubscriber;
use exchange::gateway::error::ProgramError;
use exchange::gateway::mock_api::{epoch_nanos, nano_now, sample_orders};
use exchange::gateway::new_order::OrderPublisher as RawPublisher;
use exchange::gateway::publisher::{offer_step, OfferStep, OrderPublisher, MAX_OFFER_RETRIES};
use exchange::gateway::publisher_service::PublisherService;
use exchange::gateway::service::OrderService;
use exchange::gateway::types::{OrderRequest, OutboundMessageType};
use exchange::transport::{PollError, PublishError, Publisher, Subscriber};
use exchange::common::queue::{QueueRecvError, QueueSendError};
use exchange::engine::transport::round_outcome;
use exchange::gateway::publisher_service::{publish_tally, pump_action, PumpAction};
use exchange::gateway::service::{disposition_tally, push_step, PushStep, OUTBOUND_PUSH_RETRIES};
use exchange::transport::{on_link_event, LinkAction, LinkEvent};


/// A publication that refuses the first `refusals` offers, transiently or not.
struct ScriptedPublication {
    refusals: u32,
    retryable: bool,
    offers: Cell<u32>,
    frames: RefCell<Vec<Vec<u8>>>,
}

impl ScriptedPublication {
    fn new(refusals: u32, retryable: bool) -> Self {
        Self { refusals, retryable, offers: Cell::new(0), frames: RefCell::new(Vec::new()) }
    }
}

impl Publisher for ScriptedPublication {
    type Data = usize;

    fn publish(&self, bytes: &[u8]) -> Result<usize, PublishError> {
        let n = self.offers.get();
        self.offers.set(n + 1);
        if n < self.refusals {
            Err(PublishError { retryable: self.retryable, reason: "refused".to_string() })
        } else {
            self.frames.borrow_mut().push(bytes.to_vec());
            Ok(bytes.len())
        }
    }
}

fn an_order() -> NewOrder {
    NewOrder::new(23600, 100, 1, 1, 0, 0, OrderSide::Sell, OrderType::LIMIT)
}

#[test]
fn sample_batch_is_the_fixed_table() {
    let orders = sample_orders();
    assert_eq!(orders.len(), 8);
    let expected: [(u128, u128, u64, u32, OrderSide); 8] = [
        (23600, 100, 1, 0, OrderSide::Sell),
        (23600, 100, 2, 0, OrderSide::Buy),
        (23600, 50, 3, 0, OrderSide::Sell),
        (23600, 100, 4, 0, OrderSide::Buy),
        (50000, 200, 5, 1, OrderSide::Sell),
        (50100, 200, 6, 1, OrderSide::Buy),
        (50000, 300, 7, 1, OrderSide::Sell),
        (50000, 100, 8, 1, OrderSide::Buy),
    ];
    for (o, e) in orders.iter().zip(expected.iter()) {
        assert_eq!((o.price, o.quantity, o.client_order_id, o.client_id, o.side), *e);
        assert_eq!(o.ticker_id, 0);
        assert_eq!(o.order_type, OrderType::LIMIT);
    }
}

#[test]
fn clock_stamps() {
    assert_eq!(epoch_nanos(None), 0);
    assert_eq!(epoch_nanos(Some(12)), 12);
    assert_eq!(epoch_nanos(Some((1u128 << 64) + 5)), 5);
    assert!(nano_now() > 0);
}

#[test]
fn offer_steps() {
    assert!(matches!(offer_step(0, Ok(())), OfferStep::Done(Ok(()))));
    let transient = || Err(PublishError { retryable: true, reason: "busy".to_string() });
    assert!(matches!(offer_step(0, transient()), OfferStep::Retry));
    assert!(matches!(offer_step(MAX_OFFER_RETRIES - 2, transient()), OfferStep::Retry));
    assert!(matches!(offer_step(MAX_OFFER_RETRIES - 1, transient()), OfferStep::Done(Err(_))));
    let closed = Err(PublishError { retryable: false, reason: "closed".to_string() });
    assert!(matches!(offer_step(0, closed), OfferStep::Done(Err(_))));
}

#[test]
fn publisher_retries_transient_refusals() {
    let p = OrderPublisher::new(ScriptedPublication::new(3, true));
    assert!(p.publish(OutboundMessageType::from(an_order())).is_ok());
}

#[test]
fn publisher_gives_up_after_the_last_offer() {
    let publication = ScriptedPublication::new(100, true);
    let p = OrderPublisher::new(publication);
    let r = p.publish(OutboundMessageType::from(an_order()));
    assert!(matches!(r, Err(e) if e.retryable));
}

#[test]
fn publisher_stops_at_a_permanent_refusal() {
    let p = OrderPublisher::new(ScriptedPublication::new(1, false));
    let r = p.publish(OutboundMessageType::from(an_order()));
    assert!(matches!(r, Err(e) if !e.retryable));
}

#[test]
fn outbound_frame_is_the_new_order_frame() {
    let msg = OutboundMessageType::from(an_order());
    assert_eq!(msg.to_bytes(), NewOrderMessage::new(an_order()).to_bytes());
    assert_eq!(msg.to_bytes()[0], 2);
}

#[test]
fn raw_publisher_maps_refusals() {
    let p = RawPublisher::new(ScriptedPublication::new(1, false)).ok().expect("ready");
    assert!(matches!(p.publish(&[1, 2, 3]), Err(ProgramError::Publish(_))));
    assert_eq!(p.publish(&[1, 2, 3]).ok(), Some(3));
}

#[test]
fn publisher_service_counts_frames() {
    let q: RingBufferQueue<OutboundMessageType> = RingBufferQueue::new(4);
    let mut producer = q.producer;
    let mut service = PublisherService::new(q.consumer);
    let ok = OrderPublisher::new(ScriptedPublication::new(0, true));
    assert!(service.publish_one(&ok, OutboundMessageType::from(an_order())).is_ok());
    assert_eq!((service.publish_count, service.dropped_count), (1, 0));
    let busy = OrderPublisher::new(ScriptedPublication::new(1000, true));
    assert!(service.publish_one(&busy, OutboundMessageType::from(an_order())).is_ok());
    assert_eq!((service.publish_count, service.dropped_count), (1, 1));
    let closed = OrderPublisher::new(ScriptedPublication::new(1000, false));
    assert!(service.publish_one(&closed, OutboundMessageType::from(an_order())).is_err());
    assert_eq!((service.publish_count, service.dropped_count), (1, 1));
    assert!(producer.push(OutboundMessageType::from(an_order())).is_ok());
    assert_eq!(service.pump_once(&ok).ok(), Some(true));
    assert_eq!(service.publish_count, 2);
    assert_eq!(service.drain_once(&ok).ok(), Some(false));
    drop(producer);
    assert_eq!(service.pump_once(&ok).ok(), Some(false));
}

#[test]
fn order_service_forwards_frames() {
    let inbound = Arc::new(ArrayQueue::new(4));
    let q: RingBufferQueue<OutboundMessageType> = RingBufferQueue::new(1);
    let mut outbound = q.consumer;
    let mut service = OrderService::new(inbound.clone(), q.producer);
    assert_eq!(service.poll_once(), None);
    assert!(inbound.push(OrderRequest::NewOrder(an_order())).is_ok());
    assert_eq!(service.poll_once(), Some(true));
    let frame = outbound.pop().ok().expect("forwarded");
    assert_eq!(frame.to_bytes(), NewOrderMessage::new(an_order()).to_bytes());
    // with the ring full, the order is rejected as busy
    let req = OrderRequest::NewOrder(an_order());
    assert!(matches!(service.process_new_order(&req), Ok(Disposition::Forwarded)));
    assert!(matches!(
        service.process_new_order(&req),
        Ok(Disposition::Rejected(RejectReason::SystemBusy))
    ));
    assert!(service.handle(&req));
    drop(outbound);
    assert!(matches!(
        service.process_new_order(&req),
        Err(ProgramError::OutboundQueueDisconnected)
    ));
    assert!(!service.handle(&req));
}

struct ScriptedSubscription {
    polls: u32,
    fail_at: u32,
    connected_for: u32,
}

impl Subscriber for ScriptedSubscription {
    fn poll(&mut self, fragment_limit: usize) -> Result<usize, PollError> {
        self.polls += 1;
        if self.polls == self.fail_at {
            Err(PollError { reason: "poll failed".to_string() })
        } else {
            Ok(fragment_limit)
        }
    }

    fn is_connected(&self) -> bool {
        self.polls <= self.connected_for
    }
}

#[test]
fn subscriber_stops_on_poll_error_or_disconnect() {
    let mut s = OrderSubscriber::new(ScriptedSubscription { polls: 0, fail_at: 3, connected_for: 10 })
        .ok()
        .expect("ready");
    assert!(s.poll_once().is_none());
    assert!(s.poll_once().is_none());
    assert!(matches!(s.poll_once(), Some(EngineError::TransportSubsriptionError(_))));
    let mut d = OrderSubscriber::new(ScriptedSubscription { polls: 0, fail_at: 0, connected_for: 1 })
        .ok()
        .expect("ready");
    assert!(d.poll_once().is_none());
    assert!(matches!(d.poll_once(), Some(EngineError::TransportDisconnected)));
    let mut r = OrderSubscriber::new(ScriptedSubscription { polls: 0, fail_at: 5, connected_for: 10 })
        .ok()
        .expect("ready");
    assert!(r.subscribe(4).is_none());
    assert!(matches!(r.subscribe(100), Some(EngineError::TransportSubsriptionError(_))));
}

#[test]
fn step_decisions() {
    assert!(round_outcome(Ok(3), true).is_none());
    assert!(matches!(round_outcome(Ok(3), false), Some(EngineError::TransportDisconnected)));
    assert!(matches!(
        round_outcome(Err(PollError { reason: "x".to_string() }), true),
        Some(EngineError::TransportSubsriptionError(_))
    ));

    assert_eq!(on_link_event(true, LinkEvent::Failed), LinkAction::RetryAfterDelay);
    assert_eq!(on_link_event(true, LinkEvent::Stopped), LinkAction::Exit);
    assert_eq!(on_link_event(false, LinkEvent::Failed), LinkAction::Exit);

    let frame = || OutboundMessageType::from(an_order());
    assert!(matches!(pump_action(Ok(frame()), false), PumpAction::Publish(_)));
    assert!(matches!(pump_action(Err(QueueRecvError::Empty), false), PumpAction::Idle));
    assert!(matches!(pump_action(Err(QueueRecvError::Empty), true), PumpAction::Stop));
    assert!(matches!(pump_action(Err(QueueRecvError::Disconnected), false), PumpAction::Stop));

    assert!(matches!(publish_tally(Ok(()), 4, 2), (Ok(()), 5, 2)));
    let busy = PublishError { retryable: true, reason: "busy".to_string() };
    assert!(matches!(publish_tally(Err(busy), 4, 2), (Ok(()), 4, 3)));
    let closed = PublishError { retryable: false, reason: "closed".to_string() };
    assert!(matches!(publish_tally(Err(closed), 4, 2), (Err(_), 4, 2)));

    assert_eq!(disposition_tally(&Ok(Disposition::Forwarded), 1, 1), (2, 1, true));
    assert_eq!(
        disposition_tally(&Ok(Disposition::Rejected(RejectReason::SystemBusy)), 1, 1),
        (1, 2, true)
    );
    assert_eq!(
        disposition_tally(&Err(ProgramError::OutboundQueueDisconnected), 1, 1),
        (1, 1, false)
    );

    assert!(matches!(push_step(0, Ok(())), PushStep::Done(Ok(Disposition::Forwarded))));
    assert!(matches!(push_step(0, Err(QueueSendError::Full(frame()))), PushStep::Retry(_)));
    assert!(matches!(
        push_step(OUTBOUND_PUSH_RETRIES - 1, Err(QueueSendError::Full(frame()))),
        PushStep::Done(Ok(Disposition::Rejected(RejectReason::SystemBusy)))
    ));
    assert!(matches!(
        push_step(0, Err(QueueSendError::Disconnected(frame()))),
        PushStep::Done(Err(ProgramError::OutboundQueueDisconnected))
    ));
}

/// A publication that records every frame offered to it and refuses the
/// first `refusals` offers transiently.
struct RecordingPublication {
    refusals: u32,
    offered: Rc<RefCell<Vec<Vec<u8>>>>,
}

impl Publisher for RecordingPublication {
    type Data = usize;

    fn publish(&self, bytes: &[u8]) -> Result<usize, PublishError> {
        let mut seen = self.offered.borrow_mut();
        seen.push(bytes.to_vec());
        if (seen.len() as u32) <= self.refusals {
            Err(PublishError { retryable: true, reason: "busy".to_string() })
        } else {
            Ok(bytes.len())
        }
    }
}

#[test]
fn publisher_offers_exactly_the_frame_of_the_message() {
    let offered = Rc::new(RefCell::new(Vec::new()));
    let p = OrderPublisher::new(RecordingPublication { refusals: 2, offered: offered.clone() });
    assert!(p.publish(OutboundMessageType::from(an_order())).is_ok());
    let frame = OutboundMessageType::from(an_order()).to_bytes();
    assert_eq!(*offered.borrow(), vec![frame.clone(), frame.clone(), frame]);
}

#[test]
fn transient_refusal_comes_back_only_after_every_offer() {
    let offered = Rc::new(RefCell::new(Vec::new()));
    let p = OrderPublisher::new(RecordingPublication { refusals: u32::MAX, offered: offered.clone() });
    let r = p.publish(OutboundMessageType::from(an_order()));
    assert!(matches!(r, Err(e) if e.retryable));
    assert_eq!(offered.borrow().len() as u32, MAX_OFFER_RETRIES);
}
