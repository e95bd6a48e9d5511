//! Publishing outbound frames with bounded retries.
use vstd::prelude::*;

use crate::gateway::types::OutboundMessageType;
use crate::transport::{PublishError, Publisher};

verus! {

/// Offers of one frame before a transient refusal is given up on.
pub const MAX_OFFER_RETRIES: u32 = 16;

/// `std::hint::spin_loop`: a processor hint for busy waiting, with no
/// effect on any value.
#[verifier::external_body]
pub(crate) fn spin_loop_hint() {
    std::hint::spin_loop()
}

pub struct OrderPublisher<T: Publisher> {
    publisher: T,
}

/// What follows one offer of a frame.
pub enum OfferStep {
    /// Stop, and return this.
    Done(Result<(), PublishError>),
    /// Offer the frame again.
    Retry,
}

/// What follows a refused offer made on attempt `attempt`: stop with the
/// error when it is permanent or the attempt was the last; else retry.
pub open spec fn gives_up(attempt: u32, retryable: bool) -> bool {
    !retryable || attempt >= MAX_OFFER_RETRIES - 1
}

/// What follows the outcome of offer number `attempt` (counted from 0): an
/// acceptance ends with `Ok`, a refusal ends with that refusal when
/// `gives_up`, and otherwise the frame is offered again.
pub fn offer_step(attempt: u32, outcome: Result<(), PublishError>) -> (step: OfferStep)
    ensures
        match outcome {
            Ok(()) => step == OfferStep::Done(Ok(())),
            Err(e) => if gives_up(attempt, e.retryable) {
                step == OfferStep::Done(Err(e))
            } else {
                step == OfferStep::Retry
            },
        },
{
    match outcome {
        Ok(()) => OfferStep::Done(Ok(())),
        Err(e) => {
            if e.is_retryable() && attempt < MAX_OFFER_RETRIES - 1 {
                OfferStep::Retry
            } else {
                OfferStep::Done(Err(e))
            }
        },
    }
}

impl<T: Publisher> OrderPublisher<T> {
    /// The publication the frames go to.
    pub closed spec fn publication(&self) -> T {
        self.publisher
    }

    pub fn new(publisher: T) -> (r: Self)
        ensures
            r.publication() == publisher,
    {
        Self { publisher }
    }

    /// Offers the frame of `msg` up to `MAX_OFFER_RETRIES` times: stops at
    /// the first acceptance (`Ok`) or permanent refusal, and after the last
    /// transient refusal returns that refusal. `Ok` means that the
    /// publication took the frame; an error is the publication's own refusal
    /// of it, and a transient one comes only after `MAX_OFFER_RETRIES`
    /// transient refusals in a row.
    pub fn publish(&self, msg: OutboundMessageType) -> (r: Result<(), PublishError>)
        ensures
            r is Ok ==> exists|d: T::Data| self.publication().offered(msg.spec_bytes(), Ok(d)),
            r matches Err(e) ==> self.publication().offered(msg.spec_bytes(), Err(e)),
            r matches Err(e) ==> (e.retryable ==> refused_every_offer(
                self.publication(),
                msg.spec_bytes(),
                e,
            )),
    {
        let bytes: Vec<u8> = msg.to_bytes();
        let ghost frame: Seq<u8> = msg.spec_bytes();
        let ghost mut refusals: Seq<PublishError> = Seq::empty();
        let mut attempt: u32 = 0;
        while attempt < MAX_OFFER_RETRIES
            invariant
                attempt < MAX_OFFER_RETRIES,
                bytes@ == frame,
                frame == msg.spec_bytes(),
                refusals.len() == attempt,
                forall|i: int|
                    0 <= i < refusals.len() ==> (#[trigger] refusals[i]).retryable
                        && self.publication().offered(frame, Err(refusals[i])),
            decreases MAX_OFFER_RETRIES - attempt,
        {
            let answer = self.publisher.publish(bytes.as_slice());
            let ghost reply = answer;
            let outcome = match answer {
                Ok(_) => Ok(()),
                Err(e) => Err(e),
            };
            let ghost answered = outcome;
            proof {
                if let Err(e) = answered {
                    refusals = refusals.push(e);
                }
            }
            match offer_step(attempt, outcome) {
                OfferStep::Done(r) => {
                    let ghost given = r;
                    proof {
                        if let Ok(d) = reply {
                            assert(self.publication().offered(frame, Ok(d)));
                        }
                        if let Err(e) = given {
                            if e.retryable {
                                assert(refusals.last() == e);
                                assert(refusals.len() == MAX_OFFER_RETRIES);
                            }
                        }
                    }
                    return r;
                },
                OfferStep::Retry => spin_loop_hint(),
            }
            attempt = attempt + 1;
        }
        // Not reached: the last offer always ends the loop above.
        Ok(())
    }
}

/// Every one of `MAX_OFFER_RETRIES` offers of `frame` to `p` was refused
/// transiently, the last of them with `last`.
pub open spec fn refused_every_offer<T: Publisher>(p: T, frame: Seq<u8>, last: PublishError) -> bool {
    exists|refusals: Seq<PublishError>|
        {
            &&& refusals.len() == MAX_OFFER_RETRIES
            &&& refusals.last() == last
            &&& forall|i: int|
                0 <= i < refusals.len() ==> (#[trigger] refusals[i]).retryable && p.offered(
                    frame,
                    Err(refusals[i]),
                )
        }
}

} // verus!
