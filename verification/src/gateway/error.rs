//! Failures that stop a gateway thread.
use vstd::prelude::*;

use crate::transport::{PollError, PublishError, SetupError};

verus! {

pub enum ProgramError {
    Setup(SetupError),
    Publish(PublishError),
    TransportSubscriptionError(PollError),
    OutboundQueueDisconnected,
}

impl From<PublishError> for ProgramError {
    fn from(value: PublishError) -> (r: Self)
        ensures
            r == ProgramError::Publish(value),
    {
        Self::Publish(value)
    }
}

impl vstd::std_specs::convert::FromSpecImpl<PublishError> for ProgramError {
    open spec fn obeys_from_spec() -> bool {
        true
    }

    open spec fn from_spec(value: PublishError) -> Self {
        ProgramError::Publish(value)
    }
}

} // verus!
