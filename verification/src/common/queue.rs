//! Single-producer single-consumer queues between threads: the queue
//! interface, its errors, and its implementation on an `rtrb` ring buffer.
use vstd::prelude::*;

verus! {

// ---- errors ------------------------------------------------------------------

/// A failed push; the item comes back to the caller.
pub enum QueueSendError<T> {
    /// Backpressure: the queue is full right now.
    Full(T),
    /// The consumer side is gone; permanent.
    Disconnected(T),
}

impl<T> QueueSendError<T> {
    /// Short debugging name of the variant.
    pub fn debug_text(&self) -> (s: &'static str)
        ensures
            s@ == (match self {
                QueueSendError::Full(_) => "QueueSendError::Full"@,
                QueueSendError::Disconnected(_) => "QueueSendError::Disconnected"@,
            }),
    {
        match self {
            QueueSendError::Full(_) => "QueueSendError::Full",
            QueueSendError::Disconnected(_) => "QueueSendError::Disconnected",
        }
    }

    /// Human-readable description of the failure.
    pub fn display_text(&self) -> (s: &'static str)
        ensures
            s@ == (match self {
                QueueSendError::Full(_) => "queue full"@,
                QueueSendError::Disconnected(_) => "queue consumer disconnected"@,
            }),
    {
        match self {
            QueueSendError::Full(_) => "queue full",
            QueueSendError::Disconnected(_) => "queue consumer disconnected",
        }
    }
}

/// Result of a failed pop.
#[derive(Debug, Clone, Copy, PartialEq, Eq, Structural)]
pub enum QueueRecvError {
    /// Transient: poll again next cycle.
    Empty,
    /// The producer side is gone; permanent.
    Disconnected,
}

impl QueueRecvError {
    /// Human-readable description of the failure.
    pub fn display_text(&self) -> (s: &'static str)
        ensures
            s@ == (match self {
                QueueRecvError::Empty => "queue empty"@,
                QueueRecvError::Disconnected => "queue producer disconnected"@,
            }),
    {
        match self {
            QueueRecvError::Empty => "queue empty",
            QueueRecvError::Disconnected => "queue producer disconnected",
        }
    }
}

// ---- interface -----------------------------------------------------------------

/// The sending end of a queue.
pub trait QueueProducer<T> {
    type Error;

    fn push(&mut self, item: T) -> Result<(), Self::Error>;
}

/// The receiving end of a queue.
pub trait QueueConsumer<T> {
    type Error;

    fn pop(&mut self) -> Result<T, Self::Error>;
}

// ---- rtrb ----------------------------------------------------------------------

#[verifier::external_type_specification]
#[verifier::external_body]
#[verifier::reject_recursive_types(T)]
pub struct ExRtrbProducer<T>(rtrb::Producer<T>);

#[verifier::external_type_specification]
#[verifier::external_body]
#[verifier::reject_recursive_types(T)]
pub struct ExRtrbConsumer<T>(rtrb::Consumer<T>);

/// `rtrb::RingBuffer::new(capacity)`: the two ends of a fresh ring buffer.
/// rtrb panics when `capacity` exceeds `usize::MAX / 2` and its allocation
/// exceeds `isize::MAX` bytes; both are excluded here.
#[verifier::external_body]
fn rtrb_ring_buffer<T>(capacity: usize) -> (ends: (rtrb::Producer<T>, rtrb::Consumer<T>))
    requires
        capacity <= usize::MAX / 2,
        capacity * vstd::layout::size_of::<T>() <= isize::MAX,
{
    rtrb::RingBuffer::new(capacity)
}

/// `rtrb::Producer::push`: `Err` hands back the very item that did not fit
/// (rtrb's only push error, `PushError::Full`). Whether it fits depends on
/// the consumer thread, so nothing is said about when it succeeds.
#[verifier::external_body]
fn rtrb_push<T>(producer: &mut rtrb::Producer<T>, item: T) -> (r: Result<(), T>)
    ensures
        r matches Err(x) ==> x == item,
{
    match producer.push(item) {
        Ok(()) => Ok(()),
        Err(rtrb::PushError::Full(x)) => Err(x),
    }
}

/// `rtrb::Producer::is_abandoned`: whether the consumer has been dropped
/// (decided by the other thread; nothing is stated).
#[verifier::external_body]
fn rtrb_producer_is_abandoned<T>(producer: &rtrb::Producer<T>) -> bool {
    producer.is_abandoned()
}

/// `rtrb::Producer::slots`: free slots at this moment (changes with the
/// consumer thread; nothing is stated).
#[verifier::external_body]
fn rtrb_producer_slots<T>(producer: &rtrb::Producer<T>) -> usize {
    producer.slots()
}

/// `rtrb::Producer::is_full` (changes with the consumer thread; nothing is
/// stated).
#[verifier::external_body]
fn rtrb_producer_is_full<T>(producer: &rtrb::Producer<T>) -> bool {
    producer.is_full()
}

/// `rtrb::Producer::buffer` and `RingBuffer::capacity`: the capacity the
/// ring buffer was made with (nothing is stated: a name for it would be
/// generic).
#[verifier::external_body]
fn rtrb_producer_capacity<T>(producer: &rtrb::Producer<T>) -> usize {
    producer.buffer().capacity()
}

/// `rtrb::Consumer::buffer` and `RingBuffer::capacity`: the capacity the
/// ring buffer was made with (nothing is stated: a name for it would be
/// generic).
#[verifier::external_body]
fn rtrb_consumer_capacity<T>(consumer: &rtrb::Consumer<T>) -> usize {
    consumer.buffer().capacity()
}

/// `rtrb::Consumer::pop`: `None` stands for rtrb's only pop error,
/// `PopError::Empty`. What comes out was pushed by the other thread, so
/// nothing is stated of it.
#[verifier::external_body]
fn rtrb_pop<T>(consumer: &mut rtrb::Consumer<T>) -> Option<T> {
    match consumer.pop() {
        Ok(x) => Some(x),
        Err(rtrb::PopError::Empty) => None,
    }
}

/// `rtrb::Consumer::is_abandoned`: whether the producer has been dropped
/// (nothing is stated).
#[verifier::external_body]
fn rtrb_consumer_is_abandoned<T>(consumer: &rtrb::Consumer<T>) -> bool {
    consumer.is_abandoned()
}

/// `rtrb::Consumer::slots`: items readable at this moment (nothing is stated).
#[verifier::external_body]
fn rtrb_consumer_slots<T>(consumer: &rtrb::Consumer<T>) -> usize {
    consumer.slots()
}

/// `rtrb::Consumer::is_empty` (nothing is stated).
#[verifier::external_body]
fn rtrb_consumer_is_empty<T>(consumer: &rtrb::Consumer<T>) -> bool {
    consumer.is_empty()
}

/// Both ends of one ring buffer.
#[verifier::reject_recursive_types(T)]
pub struct RingBufferQueue<T> {
    pub producer: RingBufferProducer<T>,
    pub consumer: RingBufferConsumer<T>,
}

impl<T> RingBufferQueue<T> {
    /// A ring buffer with room for `capacity` items: two fresh ends through
    /// which nothing has passed yet.
    pub fn new(capacity: usize) -> (q: Self)
        requires
            capacity <= usize::MAX / 2,
            capacity * vstd::layout::size_of::<T>() <= isize::MAX,
        ensures
            q.producer.sent() == Seq::<T>::empty(),
            q.consumer.received() == Seq::<T>::empty(),
            q.consumer.pops() == Seq::<Result<T, QueueRecvError>>::empty(),
            q.producer.capacity() == capacity,
            q.consumer.capacity() == capacity,
    {
        let (producer_end, consumer_end) = rtrb_ring_buffer(capacity);
        let producer = RingBufferProducer { producer: producer_end, capacity, sent: Ghost(Seq::empty()) };
        let consumer = RingBufferConsumer {
            consumer: consumer_end,
            capacity,
            received: Ghost(Seq::empty()),
            pops: Ghost(Seq::empty()),
        };
        Self { producer, consumer }
    }
}

/// The sending end of a ring buffer.
#[verifier::reject_recursive_types(T)]
pub struct RingBufferProducer<T> {
    pub producer: rtrb::Producer<T>,
    capacity: usize,
    sent: Ghost<Seq<T>>,
}

impl<T> RingBufferProducer<T> {
    /// The items pushed through this end so far, oldest first.
    pub closed spec fn sent(&self) -> Seq<T> {
        self.sent@
    }

    /// The ring buffer end this wraps.
    pub closed spec fn end(&self) -> rtrb::Producer<T> {
        self.producer
    }

    /// Number of slots of the ring buffer.
    pub closed spec fn capacity(&self) -> usize {
        self.capacity
    }

    pub fn new(producer: rtrb::Producer<T>) -> (r: Self)
        ensures
            r.end() == producer,
            r.sent() == Seq::<T>::empty(),
    {
        let capacity = rtrb_producer_capacity(&producer);
        Self { producer, capacity, sent: Ghost(Seq::empty()) }
    }

    /// Number of slots currently occupied: the capacity less the free slots
    /// the ring buffer reports right now (those change with the consumer
    /// thread).
    pub fn len(&self) -> (r: usize)
        ensures
            r <= self.capacity(),
    {
        let free = rtrb_producer_slots(&self.producer);
        if free <= self.capacity {
            self.capacity - free
        } else {
            0
        }
    }

    pub fn is_full(&self) -> bool {
        rtrb_producer_is_full(&self.producer)
    }
}

/// The error a push that did not fit reports: `Disconnected` once the
/// consumer is gone, else `Full`; either way carrying the item.
pub fn push_failure<T>(item: T, consumer_gone: bool) -> (e: QueueSendError<T>)
    ensures
        e == (if consumer_gone {
            QueueSendError::Disconnected(item)
        } else {
            QueueSendError::Full(item)
        }),
{
    if consumer_gone {
        QueueSendError::Disconnected(item)
    } else {
        QueueSendError::Full(item)
    }
}

/// The error a pop on an empty buffer reports: `Disconnected` once the
/// producer is gone, else `Empty`.
pub fn pop_failure(producer_gone: bool) -> (e: QueueRecvError)
    ensures
        e == (if producer_gone {
            QueueRecvError::Disconnected
        } else {
            QueueRecvError::Empty
        }),
{
    if producer_gone {
        QueueRecvError::Disconnected
    } else {
        QueueRecvError::Empty
    }
}

impl<T> QueueProducer<T> for RingBufferProducer<T> {
    type Error = QueueSendError<T>;

    /// Pushes `item`: a pushed item is added to the end's record of sent
    /// items; an item that does not fit comes back inside the error.
    fn push(&mut self, item: T) -> (r: Result<(), QueueSendError<T>>)
        ensures
            r is Ok ==> final(self).sent() == old(self).sent().push(item),
            r is Err ==> final(self).sent() == old(self).sent(),
            r is Ok || r == Err::<(), QueueSendError<T>>(QueueSendError::Full(item)) || r == Err::<
                (),
                QueueSendError<T>,
            >(QueueSendError::Disconnected(item)),
    {
        let ghost pushed = item;
        match rtrb_push(&mut self.producer, item) {
            Ok(()) => {
                self.sent = Ghost(self.sent@.push(pushed));
                Ok(())
            },
            Err(item) => {
                let gone = rtrb_producer_is_abandoned(&self.producer);
                Err(push_failure(item, gone))
            },
        }
    }
}

/// The receiving end of a ring buffer.
#[verifier::reject_recursive_types(T)]
pub struct RingBufferConsumer<T> {
    pub consumer: rtrb::Consumer<T>,
    capacity: usize,
    received: Ghost<Seq<T>>,
    pops: Ghost<Seq<Result<T, QueueRecvError>>>,
}

impl<T> RingBufferConsumer<T> {
    /// The items popped through this end so far, oldest first.
    pub closed spec fn received(&self) -> Seq<T> {
        self.received@
    }

    /// What every pop through this end returned so far, oldest first.
    pub closed spec fn pops(&self) -> Seq<Result<T, QueueRecvError>> {
        self.pops@
    }

    /// The ring buffer end this wraps.
    pub closed spec fn end(&self) -> rtrb::Consumer<T> {
        self.consumer
    }

    /// Number of slots of the ring buffer.
    pub closed spec fn capacity(&self) -> usize {
        self.capacity
    }

    pub fn new(consumer: rtrb::Consumer<T>) -> (r: Self)
        ensures
            r.end() == consumer,
            r.received() == Seq::<T>::empty(),
            r.pops() == Seq::<Result<T, QueueRecvError>>::empty(),
    {
        let capacity = rtrb_consumer_capacity(&consumer);
        Self { consumer, capacity, received: Ghost(Seq::empty()), pops: Ghost(Seq::empty()) }
    }

    /// Items readable right now, as the ring buffer reports them (they
    /// change with the producer thread); never more than the capacity.
    pub fn len(&self) -> (r: usize)
        ensures
            r <= self.capacity(),
    {
        let n = rtrb_consumer_slots(&self.consumer);
        if n <= self.capacity {
            n
        } else {
            self.capacity
        }
    }

    pub fn is_empty(&self) -> bool {
        rtrb_consumer_is_empty(&self.consumer)
    }
}

impl<T> QueueConsumer<T> for RingBufferConsumer<T> {
    type Error = QueueRecvError;

    /// Pops the oldest item, which is added to the end's record of received
    /// items; an empty buffer reports `Empty`, or `Disconnected` once the
    /// producer is gone.
    fn pop(&mut self) -> (r: Result<T, QueueRecvError>)
        ensures
            r matches Ok(x) ==> final(self).received() == old(self).received().push(x),
            r is Err ==> final(self).received() == old(self).received(),
            final(self).pops() == old(self).pops().push(r),
    {
        match rtrb_pop(&mut self.consumer) {
            Some(x) => {
                let ghost got = x;
                self.received = Ghost(self.received@.push(got));
                self.pops = Ghost(self.pops@.push(Ok(got)));
                Ok(x)
            },
            None => {
                let gone = rtrb_consumer_is_abandoned(&self.consumer);
                let e = pop_failure(gone);
                let ghost failed = e;
                self.pops = Ghost(self.pops@.push(Err(failed)));
                Err(e)
            },
        }
    }
}

} // verus!
