//! Messages flowing through the gateway.
use vstd::prelude::*;

use crate::common::new_order::{NewOrder, NewOrderMessage};

verus! {

/// An order request taken in by the gateway.
#[derive(Clone, Copy)]
pub enum OrderRequest {
    NewOrder(NewOrder),
}

/// A frame waiting to be published.
pub enum OutboundMessageType {
    New(NewOrderMessage),
}

impl OutboundMessageType {
    /// Bytes of the frame.
    pub open spec fn spec_bytes(self) -> Seq<u8> {
        match self {
            OutboundMessageType::New(m) => m.spec_bytes(),
        }
    }

    /// The frame as bytes.
    pub fn to_bytes(&self) -> (r: Vec<u8>)
        ensures
            r@ == self.spec_bytes(),
    {
        match self {
            OutboundMessageType::New(m) => m.to_bytes(),
        }
    }
}

impl From<NewOrder> for OutboundMessageType {
    fn from(order: NewOrder) -> (r: Self)
        ensures
            r == OutboundMessageType::New(NewOrderMessage::spec_new(order)),
    {
        OutboundMessageType::New(NewOrderMessage::new(order))
    }
}

impl vstd::std_specs::convert::FromSpecImpl<NewOrder> for OutboundMessageType {
    open spec fn obeys_from_spec() -> bool {
        true
    }

    open spec fn from_spec(order: NewOrder) -> Self {
        OutboundMessageType::New(NewOrderMessage::spec_new(order))
    }
}

} // verus!
