//! The decisions of one viewer connection.
//!
//! A connection relays hub events to its peer and discards what the peer
//! sends. It ends when the peer closes or fails, when a write fails, or when
//! the hub closes; what it does when it fell behind the hub is configurable.
//! Once ended it forwards nothing more. Each connection decides from its own
//! state alone, so ending one leaves every other untouched.
use vstd::prelude::*;

verus! {

/// What a connection does when its hub subscription lost messages.
#[derive(Clone, Copy, Debug, PartialEq, Eq, Structural)]
pub enum LagPolicy {
    /// Accept the gap and go on with the next message.
    Resync,
    /// End the connection.
    Disconnect,
}

/// What happened to a connection.
#[derive(Clone, Copy, Debug, PartialEq, Eq, Structural)]
pub enum ViewerEvent {
    /// The hub delivered a message.
    Published,
    /// The hub dropped this many messages that the connection had not read.
    Lagged(u64),
    /// The hub has no producer left.
    HubClosed,
    /// The peer sent a message.
    PeerMessage,
    /// The peer closed the connection.
    PeerClosed,
    /// Reading from the peer failed.
    PeerError,
    /// Writing to the peer failed.
    SendFailed,
}

/// What the connection does next.
#[derive(Clone, Copy, Debug, PartialEq, Eq, Structural)]
pub enum ViewerAction {
    /// Write the delivered message to the peer.
    Forward,
    /// Nothing.
    Ignore,
    /// Tear the connection down and stop both of its loops.
    Close,
}

/// One viewer connection's state.
#[derive(Clone, Copy, Debug, PartialEq, Eq, Structural)]
pub struct ViewerSession {
    pub open: bool,
    pub lag_policy: LagPolicy,
    /// Messages forwarded so far.
    pub forwarded: u64,
    /// Messages the hub dropped before this connection read them.
    pub missed: u64,
}

/// `a + b`, held at `u64::MAX`.
pub open spec fn sat_add(a: u64, b: u64) -> u64 {
    if a + b > u64::MAX { u64::MAX } else { (a + b) as u64 }
}

/// The connection after event `e`, and what it does.
pub open spec fn viewer_step(s: ViewerSession, e: ViewerEvent) -> (ViewerSession, ViewerAction) {
    let closed = ViewerSession { open: false, ..s };
    if !s.open {
        (s, ViewerAction::Ignore)
    } else {
        match e {
            ViewerEvent::Published => (ViewerSession { forwarded: sat_add(s.forwarded, 1), ..s }, ViewerAction::Forward),
            ViewerEvent::Lagged(n) => match s.lag_policy {
                LagPolicy::Resync => (ViewerSession { missed: sat_add(s.missed, n), ..s }, ViewerAction::Ignore),
                LagPolicy::Disconnect => (ViewerSession { missed: sat_add(s.missed, n), ..closed }, ViewerAction::Close),
            },
            ViewerEvent::PeerMessage => (s, ViewerAction::Ignore),
            _ => (closed, ViewerAction::Close),
        }
    }
}

impl ViewerSession {
    /// A connection that has just subscribed.
    pub fn new(lag_policy: LagPolicy) -> (s: ViewerSession)
        ensures
            s == (ViewerSession { open: true, lag_policy, forwarded: 0, missed: 0 }),
    {
        ViewerSession { open: true, lag_policy, forwarded: 0, missed: 0 }
    }

    /// Handles one event.
    pub fn on_event(&mut self, e: ViewerEvent) -> (a: ViewerAction)
        ensures
            (*final(self), a) == viewer_step(*old(self), e),
    {
        if !self.open {
            return ViewerAction::Ignore;
        }
        match e {
            ViewerEvent::Published => {
                self.forwarded = self.forwarded.saturating_add(1);
                ViewerAction::Forward
            },
            ViewerEvent::Lagged(n) => {
                self.missed = self.missed.saturating_add(n);
                match self.lag_policy {
                    LagPolicy::Resync => ViewerAction::Ignore,
                    LagPolicy::Disconnect => {
                        self.open = false;
                        ViewerAction::Close
                    },
                }
            },
            ViewerEvent::PeerMessage => ViewerAction::Ignore,
            _ => {
                self.open = false;
                ViewerAction::Close
            },
        }
    }
}

/// A closed connection stays closed and forwards nothing, whatever happens.
pub proof fn lemma_closed_is_final(s: ViewerSession, e: ViewerEvent)
    requires
        !s.open,
    ensures
        viewer_step(s, e) == (s, ViewerAction::Ignore),
{
}

/// An open connection forwards every published message, whatever happened
/// to any other connection.
pub proof fn lemma_open_forwards(s: ViewerSession)
    requires
        s.open,
    ensures
        viewer_step(s, ViewerEvent::Published).1 == ViewerAction::Forward,
        viewer_step(s, ViewerEvent::Published).0.open,
{
}

} // verus!
