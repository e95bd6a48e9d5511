//! What the services need from the message transport: a subscription that
//! is polled for fragments, and a publication that takes frames.
use vstd::prelude::*;

verus! {

/// Connecting to the transport or creating a publication or subscription
/// failed.
pub struct SetupError {
    pub reason: String,
}

/// A poll of a subscription failed.
pub struct PollError {
    pub reason: String,
}

/// A publication refused a frame.
pub struct PublishError {
    /// The refusal is transient (back pressure, admin action) rather than a
    /// closed or broken publication.
    pub retryable: bool,
    pub reason: String,
}

impl PublishError {
    pub fn is_retryable(&self) -> (r: bool)
        ensures
            r == self.retryable,
    {
        self.retryable
    }
}

/// How a connection to the transport, or its use, ended.
#[derive(Debug, Clone, Copy, PartialEq, Eq, Structural)]
pub enum LinkEvent {
    /// The work ended cleanly (the service was told to stop, or its input
    /// is gone).
    Stopped,
    /// Connecting, or the connection, failed.
    Failed,
}

/// What a service does next about its connection.
#[derive(Debug, Clone, Copy, PartialEq, Eq, Structural)]
pub enum LinkAction {
    Exit,
    RetryAfterDelay,
}

/// The reconnect decision of the transport loops: a service that is told to
/// stop, or whose work ended cleanly, exits; after a failure it waits and
/// connects again.
pub fn on_link_event(run: bool, ev: LinkEvent) -> (a: LinkAction)
    ensures
        a == (if !run || ev == LinkEvent::Stopped {
            LinkAction::Exit
        } else {
            LinkAction::RetryAfterDelay
        }),
{
    if !run {
        return LinkAction::Exit;
    }
    match ev {
        LinkEvent::Stopped => LinkAction::Exit,
        LinkEvent::Failed => LinkAction::RetryAfterDelay,
    }
}

/// A subscription: each poll delivers up to `fragment_limit` fragments to
/// the handler it was created with.
///
/// An implementation states in `polled` and `reports_connected` which
/// answers it may give; what it leaves open stays open to its callers.
pub trait Subscriber {
    /// `r` is an answer this subscription may give to a poll for up to
    /// `fragment_limit` fragments.
    open spec fn polled(&self, fragment_limit: usize, r: Result<usize, PollError>) -> bool {
        true
    }

    /// `r` is an answer this subscription may give when asked whether it is
    /// connected.
    open spec fn reports_connected(&self, r: bool) -> bool {
        true
    }

    fn poll(&mut self, fragment_limit: usize) -> (r: Result<usize, PollError>)
        ensures
            old(self).polled(fragment_limit, r),
    ;

    fn is_connected(&self) -> (r: bool)
        ensures
            self.reports_connected(r),
    ;
}

/// A publication of frames.
///
/// An implementation states in `offered` what its answer to an offer of a
/// frame means; what it leaves open stays open to its callers.
pub trait Publisher {
    type Data;

    /// `r` is an answer this publication may give to an offer of the frame
    /// `bytes`: `Ok` when it took the frame, else its refusal.
    open spec fn offered(&self, bytes: Seq<u8>, r: Result<Self::Data, PublishError>) -> bool {
        true
    }

    fn publish(&self, bytes: &[u8]) -> (r: Result<Self::Data, PublishError>)
        ensures
            self.offered(bytes@, r),
    ;
}

} // verus!
