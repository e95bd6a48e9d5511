//! The engine's subscription to inbound order frames.
use vstd::prelude::*;

use crate::engine::error::ProgramError;
use crate::transport::{PollError, Subscriber};

verus! {

/// Number of fragments one poll may deliver.
pub const FRAGMENT_LIMIT: usize = 10;

/// How one round of the subscription ends, from the poll's outcome and,
/// after a poll that went through, whether the transport is still
/// connected: a failed poll ends it with its error, a lost connection ends it
/// as disconnected, and otherwise polling goes on (`None`).
pub fn round_outcome(polled: Result<usize, PollError>, connected: bool) -> (r: Option<ProgramError>)
    ensures
        r == round_result(polled, connected),
{
    match polled {
        Err(e) => Some(ProgramError::TransportSubsriptionError(e)),
        Ok(_) => {
            if connected {
                None
            } else {
                Some(ProgramError::TransportDisconnected)
            }
        },
    }
}

/// How a round ends, as `round_outcome` computes it.
pub open spec fn round_result(polled: Result<usize, PollError>, connected: bool) -> Option<ProgramError> {
    match polled {
        Err(e) => Some(ProgramError::TransportSubsriptionError(e)),
        Ok(_) => if connected {
            None::<ProgramError>
        } else {
            Some(ProgramError::TransportDisconnected)
        },
    }
}

/// One round taking the subscription from `before` to `after` may end as
/// `r`: the poll for `FRAGMENT_LIMIT` fragments gave an answer the
/// subscription allows, and, when it went through, so did the connection
/// check that followed.
pub open spec fn round_step<T: Subscriber>(before: T, after: T, r: Option<ProgramError>) -> bool {
    exists|polled: Result<usize, PollError>, connected: bool|
        {
            &&& before.polled(FRAGMENT_LIMIT, polled)
            &&& polled is Ok ==> after.reports_connected(connected)
            &&& r == round_result(polled, connected)
        }
}

/// A run of rounds through the states `states`: every round but the last
/// went on, and the last ended as `r` (`None`: it went on too).
pub open spec fn rounds<T: Subscriber>(states: Seq<T>, r: Option<ProgramError>) -> bool {
    &&& states.len() >= 1
    &&& forall|i: int| 0 <= i < states.len() - 2 ==> round_step(#[trigger] states[i], states[i + 1], None)
    &&& states.len() >= 2 ==> round_step(states[states.len() - 2], states[states.len() - 1], r)
}

pub struct OrderSubscriber<T: Subscriber> {
    transport: T,
}

impl<T: Subscriber> OrderSubscriber<T> {
    /// The subscriber wrapped around `transport`.
    pub closed spec fn transport(&self) -> T {
        self.transport
    }

    pub fn new(transport: T) -> (r: Result<Self, ProgramError>)
        ensures
            r matches Ok(s) && s.transport() == transport,
    {
        Ok(Self { transport })
    }

    /// One round of the subscription loop: polls the transport for up to
    /// `FRAGMENT_LIMIT` fragments, asks whether it is still connected when the
    /// poll went through, and ends the subscription as `round_outcome` says.
    pub fn poll_once(&mut self) -> (r: Option<ProgramError>)
        ensures
            round_step(old(self).transport(), final(self).transport(), r),
            r matches Some(e) ==> (e is TransportSubsriptionError || e is TransportDisconnected),
    {
        let polled = self.transport.poll(FRAGMENT_LIMIT);
        let connected = match &polled {
            Ok(_) => self.transport.is_connected(),
            Err(_) => true,
        };
        let ghost answer = polled;
        let r = round_outcome(polled, connected);
        assert(old(self).transport().polled(FRAGMENT_LIMIT, answer));
        r
    }

    /// The subscription loop, for at most `max_rounds` rounds: polls until a
    /// round ends the subscription, and returns that round's error; `None`
    /// when every round went on.
    pub fn subscribe(&mut self, max_rounds: u64) -> (r: Option<ProgramError>)
        ensures
            exists|states: Seq<T>|
                {
                    &&& rounds(states, r)
                    &&& states[0] == old(self).transport()
                    &&& states.last() == final(self).transport()
                    &&& r is None ==> states.len() == max_rounds + 1
                    &&& r is Some ==> 2 <= states.len() <= max_rounds + 1
                },
            r matches Some(e) ==> (e is TransportSubsriptionError || e is TransportDisconnected),
    {
        let ghost mut states: Seq<T> = seq![self.transport];
        let mut round: u64 = 0;
        while round < max_rounds
            invariant
                round <= max_rounds,
                states.len() == round + 1,
                rounds(states, None),
                states[0] == old(self).transport(),
                states.last() == self.transport,
            decreases max_rounds - round,
        {
            let ghost before = states;
            let step = self.poll_once();
            proof {
                states = states.push(self.transport);
                assert(states.drop_last() == before);
                assert forall|i: int| 0 <= i < states.len() - 2 implies round_step(
                    #[trigger] states[i],
                    states[i + 1],
                    None,
                ) by {
                    assert(states[i] == before[i]);
                    assert(states[i + 1] == before[i + 1]);
                }
            }
            match step {
                Some(e) => {
                    return Some(e);
                },
                None => {},
            }
            round = round + 1;
        }
        None
    }
}

} // verus!
