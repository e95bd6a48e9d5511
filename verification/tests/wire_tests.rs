use exchange::common::create_order::{AcceptedOrder, CreateOrderMessage as AcceptedOrderMessage};
use exchange::common::dto::{OrderDTO, ORDER_DTO_SIZE};
use exchange::common::message::{MessageError, MessageHeader, MessageType};
use exchange::common::messages::{create_order, CreateOrderMessage, CREATE_ORDER_MESSAGE_SIZE};
use exchange::common::models::{OrderSide, OrderStatus, OrderType};
use exchange::common::new_order::{NewOrder, NewOrderMessage, NEW_ORDER_MESSAGE_SIZE};
use exchange::engine::error::{DeserializeErrorKind, ProgramError};
use exchange::engine::message_handler::{handle_message, handle_message_with_cast, request_of_frame};
use exchange::engine::request::EngineRequest;

fn sample_dto() -> OrderDTO {
    OrderDTO::new(
        23600,
        100,
        0,
        1_700_000_000_000,
        7,
        42,
        9,
        OrderType::LIMIT,
        OrderStatus::Pending,
        OrderSide::Sell,
    )
}

#[test]
fn order_dto_frame_roundtrip() {
    let dto = sample_dto();
    let mut bytes = Vec::new();
    dto.write_bytes(&mut bytes);
    assert_eq!(bytes.len(), ORDER_DTO_SIZE);
    // price is little-endian at offset 0
    assert_eq!(bytes[0], (23600u32 & 0xff) as u8);
    assert_eq!(bytes[1], (23600u32 >> 8) as u8);
    let back = OrderDTO::read_at(&bytes, 0).expect("valid frame");
    assert_eq!(back.price, 23600);
    assert_eq!(back.quantity, 100);
    assert_eq!(back.timestamp, 1_700_000_000_000);
    assert_eq!(back.order_id, 42);
    assert_eq!(back.side, OrderSide::Sell);
}

#[test]
fn create_order_frame_roundtrip() {
    let m = create_order(sample_dto());
    let bytes = m.to_bytes();
    assert_eq!(bytes.len(), CREATE_ORDER_MESSAGE_SIZE);
    assert_eq!(bytes[0], 0);
    assert!(bytes[1..16].iter().all(|b| *b == 0));
    let back = CreateOrderMessage::read(&bytes).expect("valid frame");
    assert_eq!(back.to_bytes(), bytes);
    assert_eq!(back.body.order.quantity, 100);
}

#[test]
fn create_order_frame_of_wrong_size_is_refused() {
    let bytes = create_order(sample_dto()).to_bytes();
    assert!(CreateOrderMessage::read(&bytes[..95]).is_none());
}

#[test]
fn new_order_frame_roundtrip() {
    let order = NewOrder::new(50100, 200, 5, 6, 1, 0, OrderSide::Buy, OrderType::LIMIT);
    let m = NewOrderMessage::new(order);
    let bytes = m.to_bytes();
    assert_eq!(bytes.len(), NEW_ORDER_MESSAGE_SIZE);
    assert_eq!(bytes[0], 2);
    let back = NewOrderMessage::read(&bytes).expect("valid frame");
    assert_eq!(back.body.price, 50100);
    assert_eq!(back.body.client_order_id, 6);
    let plain: NewOrder = NewOrder::from(back);
    assert_eq!(plain.quantity, 200);
    assert_eq!(plain.side, OrderSide::Buy);
}

#[test]
fn accepted_order_message_carries_the_order() {
    let o = AcceptedOrder::new(1, 2, 3, 4, 5, 6, 7, OrderSide::Buy, OrderType::MARKET);
    let m = AcceptedOrderMessage::new(o);
    let bytes = m.to_bytes();
    assert_eq!(bytes.len(), 96);
    assert_eq!(bytes[0], 0);
    assert_eq!(bytes[16], 1); // price, little-endian
    assert_eq!(bytes[16 + 48], 5); // market order id
    assert_eq!(bytes[16 + 60], 7); // ticker id
    let read = AcceptedOrderMessage::read(&bytes).expect("valid frame");
    assert_eq!(read.to_bytes(), bytes);
    assert!(AcceptedOrderMessage::read(&bytes[..90]).is_none());
    let back = AcceptedOrder::from(m);
    assert_eq!(back.market_order_id, 5);
    assert_eq!(back.ticker_id, 7);
    assert_eq!(back.order_type, OrderType::MARKET);
}

#[test]
fn header_parse_cases() {
    assert_eq!(
        MessageHeader::parse(&[0u8; 4], 4),
        Ok(MessageHeader { message_type: MessageType::CreateOrder })
    );
    assert_eq!(
        MessageHeader::parse(&[2u8], 4),
        Ok(MessageHeader { message_type: MessageType::NewOrder })
    );
    assert_eq!(
        MessageHeader::parse(&[7u8], 4),
        Err(MessageError::DeserializeMessageHeader(DeserializeErrorKind::Validity))
    );
    assert_eq!(
        MessageHeader::parse(&[0u8; 5], 4),
        Err(MessageError::MessageTooLarge { size: 5, max: 4 })
    );
}

#[test]
fn handle_message_accepts_a_framed_create_order() {
    let bytes = create_order(sample_dto()).to_bytes();
    assert!(handle_message_with_cast(&bytes, 1024, Ok(())).is_ok());
    // the live layout check may only refuse the buffer's alignment
    match handle_message(&bytes, 1024) {
        Ok(()) => {}
        Err(ProgramError::DeserializeMessageBody(DeserializeErrorKind::Alignment)) => {}
        Err(e) => panic!("unexpected refusal: {}", e.display_text()),
    }
}

#[test]
fn handle_message_refusals() {
    let bytes = create_order(sample_dto()).to_bytes();
    match handle_message_with_cast(&bytes, 10, Ok(())) {
        Err(ProgramError::MessageTooLarge { size, max }) => assert_eq!((size, max), (96, 10)),
        _ => panic!("expected MessageTooLarge"),
    }
    match handle_message(&[9u8, 0, 0], 1024) {
        Err(ProgramError::DeserializeMessageHeader(DeserializeErrorKind::Validity)) => {}
        _ => panic!("expected a header refusal"),
    }
    match handle_message(&[0u8, 1, 2], 1024) {
        Err(ProgramError::DeserializeMessageBody(DeserializeErrorKind::Size)) => {}
        Err(ProgramError::DeserializeMessageBody(DeserializeErrorKind::Alignment)) => {}
        _ => panic!("expected a body refusal"),
    }
    let mut bad = bytes.clone();
    bad[16 + 70] = 9; // no such side byte
    match handle_message_with_cast(&bad, 1024, Ok(())) {
        Err(ProgramError::DeserializeMessageBody(DeserializeErrorKind::Validity)) => {}
        _ => panic!("expected a validity refusal"),
    }
    match handle_message(&[], 1024) {
        Err(ProgramError::DeserializeMessageHeader(DeserializeErrorKind::Size)) => {}
        _ => panic!("expected an empty-frame refusal"),
    }
    assert_eq!(
        MessageHeader::parse(&[], 4),
        Err(MessageError::DeserializeMessageHeader(DeserializeErrorKind::Size))
    );
    // frames of other known types pass untouched
    assert!(handle_message(&[1u8, 0], 1024).is_ok());
}

#[test]
fn engine_error_texts() {
    assert_eq!(ProgramError::TransportDisconnected.display_text(), "transport disconnected");
    assert_eq!(
        ProgramError::MessageTooLarge { size: 2, max: 1 }.display_text(),
        "Message too large"
    );
}

#[test]
fn accepted_order_frames_become_engine_requests() {
    let o = AcceptedOrder::new(23600, 10, 3, 4, 5, 6, 1, OrderSide::Sell, OrderType::LIMIT);
    let bytes = AcceptedOrderMessage::new(o).to_bytes();
    match request_of_frame(&bytes) {
        Some(EngineRequest::NewOrder(r)) => {
            assert_eq!((r.price, r.quantity, r.client_order_id, r.client_id, r.ticker_id), (23600, 10, 4, 6, 1));
            assert_eq!(r.side, OrderSide::Sell);
        }
        None => panic!("expected a request"),
    }
    let other = NewOrderMessage::new(NewOrder::new(1, 1, 1, 1, 1, 1, OrderSide::Buy, OrderType::LIMIT));
    assert!(request_of_frame(&other.to_bytes()).is_none());
    assert!(request_of_frame(&[]).is_none());
}
