use exchange::common::queue::{
    pop_failure, push_failure, QueueConsumer, QueueProducer, QueueRecvError, QueueSendError,
    RingBufferQueue,
};

#[test]
fn ring_buffer_is_fifo_and_bounded() {
    let q: RingBufferQueue<u32> = RingBufferQueue::new(2);
    let mut p = q.producer;
    let mut c = q.consumer;
    assert!(c.is_empty());
    assert_eq!(p.len(), 0);
    assert!(p.push(1).is_ok());
    assert_eq!(p.len(), 1);
    assert!(p.push(2).is_ok());
    assert_eq!(p.len(), 2);
    assert!(p.is_full());
    match p.push(3) {
        Err(QueueSendError::Full(x)) => assert_eq!(x, 3),
        _ => panic!("expected Full"),
    }
    assert_eq!(c.len(), 2);
    assert_eq!(c.pop().ok(), Some(1));
    assert_eq!(c.pop().ok(), Some(2));
    assert!(matches!(c.pop(), Err(QueueRecvError::Empty)));
}

#[test]
fn ends_report_the_other_end_gone() {
    let q: RingBufferQueue<u32> = RingBufferQueue::new(1);
    let mut p = q.producer;
    let c = q.consumer;
    assert!(p.push(1).is_ok());
    drop(c);
    match p.push(2) {
        Err(QueueSendError::Disconnected(x)) => assert_eq!(x, 2),
        _ => panic!("expected Disconnected"),
    }
    let q2: RingBufferQueue<u32> = RingBufferQueue::new(1);
    let mut c2 = q2.consumer;
    drop(q2.producer);
    assert!(matches!(c2.pop(), Err(QueueRecvError::Disconnected)));
}

#[test]
fn failure_values_and_texts() {
    assert!(matches!(push_failure(5u8, true), QueueSendError::Disconnected(5)));
    assert!(matches!(push_failure(5u8, false), QueueSendError::Full(5)));
    assert!(matches!(pop_failure(true), QueueRecvError::Disconnected));
    assert!(matches!(pop_failure(false), QueueRecvError::Empty));
    assert_eq!(QueueSendError::Full(1u8).display_text(), "queue full");
    assert_eq!(QueueSendError::Full(1u8).debug_text(), "QueueSendError::Full");
    assert_eq!(
        QueueSendError::Disconnected(1u8).display_text(),
        "queue consumer disconnected"
    );
    assert_eq!(QueueRecvError::Empty.display_text(), "queue empty");
    assert_eq!(QueueRecvError::Disconnected.display_text(), "queue producer disconnected");
}
