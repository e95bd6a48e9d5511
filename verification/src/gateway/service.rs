//! The gateway's order service: takes client orders off the inbound queue and
//! forwards their frames to the outbound ring buffer.
use vstd::prelude::*;

use std::sync::Arc;

use crate::common::error::{Disposition, RejectReason};
use crate::common::new_order::NewOrderMessage;
use crate::common::queue::{QueueProducer, QueueSendError, RingBufferProducer};
use crate::gateway::error::ProgramError;
use crate::gateway::publisher::spin_loop_hint;
use crate::gateway::types::{OrderRequest, OutboundMessageType};

verus! {

/// Pushes of one frame before the order is rejected as `SystemBusy`.
pub const OUTBOUND_PUSH_RETRIES: u32 = 1024;

#[verifier::external_type_specification]
#[verifier::external_body]
#[verifier::reject_recursive_types(T)]
pub struct ExArrayQueue<T>(crossbeam::queue::ArrayQueue<T>);

/// `crossbeam::queue::ArrayQueue::pop`: the oldest item, or `None` when the
/// queue is empty. Other threads push concurrently, so nothing is stated.
#[verifier::external_body]
fn array_queue_pop<T>(queue: &crossbeam::queue::ArrayQueue<T>) -> Option<T> {
    queue.pop()
}

/// The frame an order request is forwarded as.
pub open spec fn frame_of(req: OrderRequest) -> OutboundMessageType {
    match req {
        OrderRequest::NewOrder(o) => OutboundMessageType::New(NewOrderMessage::spec_new(o)),
    }
}

/// What follows one push of a frame onto the outbound ring.
pub enum PushStep {
    /// Stop, and return this.
    Done(Result<Disposition, ProgramError>),
    /// Push this frame (the one the ring handed back) again.
    Retry(OutboundMessageType),
}

/// What follows the outcome of push number `attempt` (counted from 0): a
/// frame that went in is forwarded; a ring whose consumer is gone is an
/// error at once; a full ring hands the frame back for another push, and
/// after the last of `OUTBOUND_PUSH_RETRIES` pushes the order is rejected as
/// `SystemBusy`.
pub fn push_step(attempt: u32, outcome: Result<(), QueueSendError<OutboundMessageType>>) -> (s: PushStep)
    ensures
        s == match outcome {
            Ok(()) => PushStep::Done(Ok(Disposition::Forwarded)),
            Err(QueueSendError::Disconnected(_)) => PushStep::Done(
                Err(ProgramError::OutboundQueueDisconnected),
            ),
            Err(QueueSendError::Full(m)) => if attempt + 1 < OUTBOUND_PUSH_RETRIES {
                PushStep::Retry(m)
            } else {
                PushStep::Done(Ok(Disposition::Rejected(RejectReason::SystemBusy)))
            },
        },
{
    match outcome {
        Ok(()) => PushStep::Done(Ok(Disposition::Forwarded)),
        Err(QueueSendError::Disconnected(_)) => PushStep::Done(
            Err(ProgramError::OutboundQueueDisconnected),
        ),
        Err(QueueSendError::Full(m)) => {
            if attempt < OUTBOUND_PUSH_RETRIES - 1 {
                PushStep::Retry(m)
            } else {
                PushStep::Done(Ok(Disposition::Rejected(RejectReason::SystemBusy)))
            }
        },
    }
}

/// The forwarded and rejected counts after an order's processing returned
/// `d`, and whether the service goes on.
pub open spec fn disposition_tally_of(d: Result<Disposition, ProgramError>, forwarded: u64, rejected: u64) -> (
    u64,
    u64,
    bool,
) {
    match d {
        Ok(Disposition::Forwarded) => ((forwarded + 1) as u64, rejected, true),
        Ok(Disposition::Rejected(_)) => (forwarded, (rejected + 1) as u64, true),
        Err(_) => (forwarded, rejected, false),
    }
}

/// Counts an order's disposition: a forwarded order raises the forwarded
/// count, a rejected one the rejected count, and both go on; an error counts
/// nothing and stops the service.
pub fn disposition_tally(d: &Result<Disposition, ProgramError>, forwarded: u64, rejected: u64) -> (r: (
    u64,
    u64,
    bool,
))
    requires
        forwarded < u64::MAX,
        rejected < u64::MAX,
    ensures
        r == disposition_tally_of(*d, forwarded, rejected),
{
    match d {
        Ok(Disposition::Forwarded) => (forwarded + 1, rejected, true),
        Ok(Disposition::Rejected(_)) => (forwarded, rejected + 1, true),
        Err(_) => (forwarded, rejected, false),
    }
}

pub struct OrderService {
    order_consumer: Arc<crossbeam::queue::ArrayQueue<OrderRequest>>,
    outbound_producer: RingBufferProducer<OutboundMessageType>,
    forwarded: u64,
    rejected: u64,
}

impl OrderService {
    /// Orders forwarded so far.
    pub closed spec fn forwarded_count(&self) -> u64 {
        self.forwarded
    }

    /// Orders rejected so far.
    pub closed spec fn rejected_count(&self) -> u64 {
        self.rejected
    }

    /// The queue orders are taken from.
    pub closed spec fn inbound(&self) -> Arc<crossbeam::queue::ArrayQueue<OrderRequest>> {
        self.order_consumer
    }

    /// The ring frames are forwarded to.
    pub closed spec fn outbound(&self) -> RingBufferProducer<OutboundMessageType> {
        self.outbound_producer
    }

    /// Orders forwarded so far.
    pub fn forwarded(&self) -> (r: u64)
        ensures
            r == self.forwarded_count(),
    {
        self.forwarded
    }

    /// Orders rejected so far.
    pub fn rejected(&self) -> (r: u64)
        ensures
            r == self.rejected_count(),
    {
        self.rejected
    }

    pub fn new(
        order_consumer: Arc<crossbeam::queue::ArrayQueue<OrderRequest>>,
        outbound_producer: RingBufferProducer<OutboundMessageType>,
    ) -> (r: Self)
        ensures
            r.inbound() == order_consumer,
            r.outbound() == outbound_producer,
            r.forwarded_count() == 0,
            r.rejected_count() == 0,
    {
        Self { order_consumer, outbound_producer, forwarded: 0, rejected: 0 }
    }

    /// One round of the service loop: handles the next queued order if there
    /// is one. `None` when the queue was empty, else what `handle` returned.
    pub fn poll_once(&mut self) -> (r: Option<bool>)
        requires
            old(self).forwarded_count() < u64::MAX,
            old(self).rejected_count() < u64::MAX,
        ensures
            r is None ==> final(self).forwarded_count() == old(self).forwarded_count()
                && final(self).rejected_count() == old(self).rejected_count(),
            r == Some(false) ==> final(self).forwarded_count() == old(self).forwarded_count()
                && final(self).rejected_count() == old(self).rejected_count(),
            r == Some(true) ==> final(self).forwarded_count() + final(self).rejected_count()
                == old(self).forwarded_count() + old(self).rejected_count() + 1,
            final(self).forwarded_count() == old(self).forwarded_count() + 1 ==> exists|
                o: OrderRequest,
            | final(self).outbound().sent() == old(self).outbound().sent().push(
                #[trigger] frame_of(o),
            ),
            final(self).forwarded_count() == old(self).forwarded_count()
                ==> final(self).outbound().sent() == old(self).outbound().sent(),
    {
        match array_queue_pop(&self.order_consumer) {
            Some(order) => Some(self.handle(&order)),
            None => None,
        }
    }

    /// Processes one order and counts its disposition; `false` only when the
    /// outbound pipeline is broken.
    pub fn handle(&mut self, order: &OrderRequest) -> (ok: bool)
        requires
            old(self).forwarded_count() < u64::MAX,
            old(self).rejected_count() < u64::MAX,
        ensures
            ok ==> (final(self).forwarded_count() == old(self).forwarded_count() + 1
                && final(self).rejected_count() == old(self).rejected_count()) || (
            final(self).forwarded_count() == old(self).forwarded_count()
                && final(self).rejected_count() == old(self).rejected_count() + 1),
            !ok ==> final(self).forwarded_count() == old(self).forwarded_count()
                && final(self).rejected_count() == old(self).rejected_count(),
            final(self).forwarded_count() == old(self).forwarded_count() + 1
                ==> final(self).outbound().sent() == old(self).outbound().sent().push(
                frame_of(*order),
            ),
            final(self).forwarded_count() == old(self).forwarded_count()
                ==> final(self).outbound().sent() == old(self).outbound().sent(),
            exists|d: Result<Disposition, ProgramError>|
                #[trigger] disposition_tally_of(d, old(self).forwarded_count(), old(self).rejected_count())
                    == (final(self).forwarded_count(), final(self).rejected_count(), ok),
    {
        let d = self.process_new_order(order);
        let (forwarded, rejected, ok) = disposition_tally(&d, self.forwarded, self.rejected);
        self.forwarded = forwarded;
        self.rejected = rejected;
        ok
    }

    /// Wraps the order in a new-order frame and forwards it.
    pub fn process_new_order(&mut self, order_request: &OrderRequest) -> (r: Result<
        Disposition,
        ProgramError,
    >)
        ensures
            r is Ok ==> r == Ok::<Disposition, ProgramError>(Disposition::Forwarded) || r == Ok::<
                Disposition,
                ProgramError,
            >(Disposition::Rejected(RejectReason::SystemBusy)),
            r is Err ==> r matches Err(ProgramError::OutboundQueueDisconnected),
            final(self).forwarded_count() == old(self).forwarded_count(),
            final(self).rejected_count() == old(self).rejected_count(),
            r == Ok::<Disposition, ProgramError>(Disposition::Forwarded) ==> final(self).outbound().sent() == old(self).outbound().sent().push(frame_of(*order_request)),
            r != Ok::<Disposition, ProgramError>(Disposition::Forwarded) ==> final(self).outbound().sent() == old(self).outbound().sent(),
    {
        let msg = match order_request {
            OrderRequest::NewOrder(order) => {
                let order_message = NewOrderMessage::new(*order);
                let msg = OutboundMessageType::New(order_message);
                msg
            },
        };
        self.forward(msg)
    }

    /// Pushes the frame, retrying a full ring up to `OUTBOUND_PUSH_RETRIES`
    /// times: `Forwarded` once it is in, `Rejected(SystemBusy)` when the ring
    /// stayed full, an error when the consumer side is gone.
    fn forward(&mut self, order_msg: OutboundMessageType) -> (r: Result<Disposition, ProgramError>)
        ensures
            r is Ok ==> r == Ok::<Disposition, ProgramError>(Disposition::Forwarded) || r == Ok::<
                Disposition,
                ProgramError,
            >(Disposition::Rejected(RejectReason::SystemBusy)),
            r is Err ==> r matches Err(ProgramError::OutboundQueueDisconnected),
            final(self).forwarded_count() == old(self).forwarded_count(),
            final(self).rejected_count() == old(self).rejected_count(),
            r == Ok::<Disposition, ProgramError>(Disposition::Forwarded) ==> final(self).outbound().sent() == old(self).outbound().sent().push(order_msg),
            r != Ok::<Disposition, ProgramError>(Disposition::Forwarded) ==> final(self).outbound().sent() == old(self).outbound().sent(),
    {
        let mut order = order_msg;
        let mut attempt: u32 = 0;
        while attempt < OUTBOUND_PUSH_RETRIES
            invariant
                attempt <= OUTBOUND_PUSH_RETRIES,
                order == order_msg,
                self.outbound_producer.sent() == old(self).outbound_producer.sent(),
                self.forwarded == old(self).forwarded,
                self.rejected == old(self).rejected,
            decreases OUTBOUND_PUSH_RETRIES - attempt,
        {
            let outcome = self.outbound_producer.push(order);
            match push_step(attempt, outcome) {
                PushStep::Done(r) => {
                    return r;
                },
                PushStep::Retry(returned) => {
                    order = returned;
                    spin_loop_hint();
                },
            }
            attempt = attempt + 1;
        }
        Ok(Disposition::Rejected(RejectReason::SystemBusy))
    }
}

} // verus!
