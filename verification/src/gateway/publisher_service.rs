//! The thread that drains the outbound queue into the publication.
use vstd::prelude::*;

use crate::common::queue::{QueueConsumer, QueueRecvError, RingBufferConsumer};
use crate::gateway::publisher::{refused_every_offer, OrderPublisher};
use crate::gateway::types::OutboundMessageType;
use crate::transport::{PublishError, Publisher};

verus! {

pub struct PublisherService {
    consumer: RingBufferConsumer<OutboundMessageType>,
    pub publish_count: u64,
    pub dropped_count: u64,
}

/// Counters after one round of the publishing loop that returned `r`: a
/// round that ends the loop, or that fails with a permanent refusal, counts
/// nothing; any other round counts at most one frame, as published or as
/// dropped.
pub open spec fn counted_at_most_one(
    published0: u64,
    dropped0: u64,
    published1: u64,
    dropped1: u64,
    r: Result<bool, PublishError>,
) -> bool {
    match r {
        Ok(true) => (published1 == published0 && dropped1 == dropped0) || (published1 == published0
            + 1 && dropped1 == dropped0) || (published1 == published0 && dropped1 == dropped0 + 1),
        Ok(false) => published1 == published0 && dropped1 == dropped0,
        Err(e) => !e.retryable && published1 == published0 && dropped1 == dropped0,
    }
}

/// A ring end's record of received frames after one round: unchanged, or
/// one frame longer.
pub open spec fn took_at_most_one(before: Seq<OutboundMessageType>, after: Seq<OutboundMessageType>) -> bool {
    after == before || (after.len() == before.len() + 1 && after.drop_last() == before)
}

/// A round popped the ring exactly once: its record of pop outcomes grew by
/// one.
pub open spec fn popped_once(
    before: Seq<Result<OutboundMessageType, QueueRecvError>>,
    after: Seq<Result<OutboundMessageType, QueueRecvError>>,
) -> bool {
    after.len() == before.len() + 1 && after.drop_last() == before
}

/// What one round of the publishing loop does with the outcome of its pop.
pub enum PumpAction {
    /// Publish this frame.
    Publish(OutboundMessageType),
    /// Nothing was queued: wait and poll again.
    Idle,
    /// The loop ends.
    Stop,
}

/// The action for a pop's outcome: a popped frame is published; an empty
/// ring means waiting while pumping and the end of a final drain; a ring
/// whose producer is gone ends the loop.
pub fn pump_action(popped: Result<OutboundMessageType, QueueRecvError>, draining: bool) -> (a: PumpAction)
    ensures
        a == match popped {
            Ok(m) => PumpAction::Publish(m),
            Err(QueueRecvError::Empty) => if draining {
                PumpAction::Stop
            } else {
                PumpAction::Idle
            },
            Err(QueueRecvError::Disconnected) => PumpAction::Stop,
        },
{
    match popped {
        Ok(m) => PumpAction::Publish(m),
        Err(QueueRecvError::Empty) => {
            if draining {
                PumpAction::Stop
            } else {
                PumpAction::Idle
            }
        },
        Err(QueueRecvError::Disconnected) => PumpAction::Stop,
    }
}

/// What is returned, and the published and dropped counts, after a
/// publication answered `outcome`.
pub open spec fn tally_of(outcome: Result<(), PublishError>, published: u64, dropped: u64) -> (
    Result<(), PublishError>,
    u64,
    u64,
) {
    match outcome {
        Ok(()) => (Ok::<(), PublishError>(()), (published + 1) as u64, dropped),
        Err(e) => if e.retryable {
            (Ok::<(), PublishError>(()), published, (dropped + 1) as u64)
        } else {
            (Err::<(), PublishError>(e), published, dropped)
        },
    }
}

/// The counters after a publication answered `outcome`, and what is
/// returned: a published frame raises the published count, a transient
/// refusal raises the dropped count (the frame is dropped, the loop goes
/// on), and a permanent refusal is returned with both counts as they were.
pub fn publish_tally(outcome: Result<(), PublishError>, published: u64, dropped: u64) -> (r: (
    Result<(), PublishError>,
    u64,
    u64,
))
    requires
        published < u64::MAX,
        dropped < u64::MAX,
    ensures
        r == tally_of(outcome, published, dropped),
{
    match outcome {
        Ok(()) => (Ok(()), published + 1, dropped),
        Err(e) => {
            if e.is_retryable() {
                (Ok(()), published, dropped + 1)
            } else {
                (Err(e), published, dropped)
            }
        },
    }
}

impl PublisherService {
    /// Frames published so far.
    pub closed spec fn published(&self) -> u64 {
        self.publish_count
    }

    /// Frames dropped after transient refusals so far.
    pub closed spec fn dropped(&self) -> u64 {
        self.dropped_count
    }

    /// The ring frames are taken from.
    pub closed spec fn source(&self) -> RingBufferConsumer<OutboundMessageType> {
        self.consumer
    }

    pub fn new(consumer: RingBufferConsumer<OutboundMessageType>) -> (r: Self)
        ensures
            r.source() == consumer,
            r.published() == 0,
            r.dropped() == 0,
    {
        Self { consumer, publish_count: 0, dropped_count: 0 }
    }

    /// Publishes one frame and counts it: a published frame (one the
    /// publication took) raises `publish_count`, a frame refused transiently
    /// at every offer raises `dropped_count`, and a permanent refusal by the
    /// publication is returned with both counters unchanged.
    pub fn publish_one<T: Publisher>(
        &mut self,
        publisher: &OrderPublisher<T>,
        msg: OutboundMessageType,
    ) -> (r: Result<(), PublishError>)
        requires
            old(self).published() < u64::MAX,
            old(self).dropped() < u64::MAX,
        ensures
            r is Ok ==> (final(self).published() == old(self).published() + 1
                && final(self).dropped() == old(self).dropped()) || (
            final(self).published() == old(self).published() && final(self).dropped()
                == old(self).dropped() + 1),
            r matches Err(e) ==> !e.retryable && final(self).published()
                == old(self).published() && final(self).dropped()
                == old(self).dropped(),
            final(self).source() == old(self).source(),
            exists|outcome: Result<(), PublishError>|
                #[trigger] tally_of(outcome, old(self).published(), old(self).dropped()) == (
                    r,
                    final(self).published(),
                    final(self).dropped(),
                ),
            final(self).published() == old(self).published() + 1 ==> exists|d: T::Data|
                publisher.publication().offered(msg.spec_bytes(), Ok(d)),
            final(self).dropped() == old(self).dropped() + 1 ==> exists|e: PublishError|
                e.retryable && refused_every_offer(publisher.publication(), msg.spec_bytes(), e),
            r matches Err(e) ==> publisher.publication().offered(msg.spec_bytes(), Err(e)),
    {
        let ghost frame = msg.spec_bytes();
        let outcome = publisher.publish(msg);
        let ghost answer = outcome;
        let (r, published, dropped) = publish_tally(outcome, self.publish_count, self.dropped_count);
        self.publish_count = published;
        self.dropped_count = dropped;
        proof {
            if let Err(e) = answer {
                if e.retryable {
                    assert(refused_every_offer(publisher.publication(), frame, e));
                }
            }
        }
        r
    }

    /// One round of the pumping loop: publish the next queued frame if there
    /// is one. `Ok(false)` exactly when the pop found the producer side gone
    /// (the loop ends); a ring that is only empty for now gives `Ok(true)`
    /// (wait and poll again); a permanent publish refusal is returned.
    pub fn pump_once<T: Publisher>(&mut self, publisher: &OrderPublisher<T>) -> (r: Result<
        bool,
        PublishError,
    >)
        requires
            old(self).published() < u64::MAX,
            old(self).dropped() < u64::MAX,
        ensures
            counted_at_most_one(old(self).published(), old(self).dropped(), final(self).published(), final(self).dropped(), r),
            took_at_most_one(old(self).source().received(), final(self).source().received()),
            r == Ok::<bool, PublishError>(false) ==> final(self).source().received() == old(
                self,
            ).source().received(),
            (r is Err || final(self).published() != old(self).published() || final(self).dropped()
                != old(self).dropped()) ==> final(self).source().received().len() == old(
                self,
            ).source().received().len() + 1,
            popped_once(old(self).source().pops(), final(self).source().pops()),
            final(self).source().pops().last() == Err::<OutboundMessageType, QueueRecvError>(
                QueueRecvError::Empty,
            ) ==> r == Ok::<bool, PublishError>(true),
            r == Ok::<bool, PublishError>(false) <==> final(self).source().pops().last() == Err::<
                OutboundMessageType,
                QueueRecvError,
            >(QueueRecvError::Disconnected),
    {
        let ghost before = self.consumer.received();
        let ghost pops_before = self.consumer.pops();
        let popped = self.consumer.pop();
        assert(self.consumer.pops().drop_last() =~= pops_before);
        match pump_action(popped, false) {
            PumpAction::Publish(order) => {
                assert(before.push(order).drop_last() =~= before);
                match self.publish_one(publisher, order) {
                    Ok(()) => Ok(true),
                    Err(e) => Err(e),
                }
            },
            PumpAction::Idle => {
                crate::gateway::publisher::spin_loop_hint();
                Ok(true)
            },
            PumpAction::Stop => Ok(false),
        }
    }

    /// One round of the final drain: publish the next queued frame if there
    /// is one (`Ok(true)`), else `Ok(false)`.
    pub fn drain_once<T: Publisher>(&mut self, publisher: &OrderPublisher<T>) -> (r: Result<
        bool,
        PublishError,
    >)
        requires
            old(self).published() < u64::MAX,
            old(self).dropped() < u64::MAX,
        ensures
            counted_at_most_one(old(self).published(), old(self).dropped(), final(self).published(), final(self).dropped(), r),
            took_at_most_one(old(self).source().received(), final(self).source().received()),
            r == Ok::<bool, PublishError>(false) ==> final(self).source().received() == old(
                self,
            ).source().received(),
            (r is Err || final(self).published() != old(self).published() || final(self).dropped()
                != old(self).dropped()) ==> final(self).source().received().len() == old(
                self,
            ).source().received().len() + 1,
            popped_once(old(self).source().pops(), final(self).source().pops()),
            r == Ok::<bool, PublishError>(false) <==> final(self).source().pops().last() is Err,
    {
        let ghost before = self.consumer.received();
        let ghost pops_before = self.consumer.pops();
        let popped = self.consumer.pop();
        assert(self.consumer.pops().drop_last() =~= pops_before);
        match pump_action(popped, true) {
            PumpAction::Publish(order) => {
                assert(before.push(order).drop_last() =~= before);
                match self.publish_one(publisher, order) {
                    Ok(()) => Ok(true),
                    Err(e) => Err(e),
                }
            },
            _ => Ok(false),
        }
    }
}

} // verus!
