//! Requests handed to the matching engine.
use vstd::prelude::*;

use crate::common::create_order::AcceptedOrder;

verus! {

#[derive(Clone, Copy)]
pub enum EngineRequest {
    NewOrder(AcceptedOrder),
}

} // verus!
