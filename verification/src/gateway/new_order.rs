//! Publishing raw frames on the new-order stream.
use vstd::prelude::*;

use crate::gateway::error::ProgramError;
use crate::transport::Publisher;

verus! {

pub struct OrderPublisher<T: Publisher> {
    publisher: T,
}

impl<T: Publisher> OrderPublisher<T> {
    /// The publication the frames go to.
    pub closed spec fn publication(&self) -> T {
        self.publisher
    }

    pub fn new(publisher: T) -> (r: Result<Self, ProgramError>)
        ensures
            r matches Ok(p) && p.publication() == publisher,
    {
        Ok(Self { publisher })
    }

    /// Offers `bytes` once: what the publication answers is returned, a
    /// refusal as `ProgramError::Publish`.
    pub fn publish(&self, bytes: &[u8]) -> (r: Result<T::Data, ProgramError>)
        ensures
            r matches Ok(d) ==> self.publication().offered(bytes@, Ok(d)),
            r matches Err(e) ==> (e matches ProgramError::Publish(p) && self.publication().offered(
                bytes@,
                Err(p),
            )),
    {
        match self.publisher.publish(bytes) {
            Ok(r) => Ok(r),
            Err(e) => Err(ProgramError::from(e)),
        }
    }
}

} // verus!
