//! Outcome of a queue operation that did not complete.
use vstd::prelude::*;

verus! {

pub enum QueueError<T> {
    Full(T),
    Empty,
}

} // verus!
