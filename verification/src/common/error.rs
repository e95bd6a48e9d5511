//! Per-order outcomes of the order-entry pipeline.
use vstd::prelude::*;

verus! {

/// Why an order was not forwarded; every variant is a normal business
/// outcome sent back to the client, not a fault.
#[derive(Debug, Clone, Copy, PartialEq, Eq, Structural)]
pub enum RejectReason {
    InvalidPrice,
    InvalidQuantity,
    InvalidSide,
    /// Outbound pipeline saturated: the order was not accepted.
    SystemBusy,
}

/// The fate of one order.
#[derive(Debug, Clone, Copy, PartialEq, Eq, Structural)]
pub enum Disposition {
    Forwarded,
    Rejected(RejectReason),
}

} // verus!
