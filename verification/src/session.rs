//! The upgrade session's lifecycle.
//!
//! A request for the reserved path converts its connection from
//! request/response mode into a persistent duplex message channel.  The
//! session is Pending once the handshake is validated, Open while messages
//! flow in both directions, and Closed once either side signals close, the
//! engine detects a stream error, or the underlying connection goes away.
//! While the session is open it holds an internal event subscription feeding
//! the stream; closing, however it comes about, releases it.  Within each
//! direction, message order is preserved; across directions nothing is
//! promised.

use vstd::prelude::*;

verus! {

/// The lifecycle states of an upgrade session.
#[derive(PartialEq, Eq, Structural, Clone, Copy, Debug)]
pub enum SessionState {
    /// The upgrade handshake was validated; streaming has not begun.
    Pending,
    /// Bidirectional messages flow.
    Open,
    /// Either side closed, a stream error was detected, or the connection
    /// went away.
    Closed,
}

/// What the engine observes on an upgrade session.
#[derive(PartialEq, Eq, Structural, Clone, Copy, Debug)]
pub enum SessionEvent {
    /// The handshake completed and streaming begins.
    Opened,
    /// Either side signalled an orderly close.
    CloseSignal,
    /// The engine detected a stream error.
    StreamError,
    /// The underlying connection was destroyed.
    ConnectionClosed,
}

/// One upgrade session: its lifecycle state, whether its event subscription
/// is bound, and its two message queues, one per direction.
pub struct Session {
    /// Where in the lifecycle the session stands.
    pub state: SessionState,
    /// Whether the internal event subscription feeding the stream is bound.
    pub subscribed: bool,
    /// Messages travelling toward the client, oldest first.
    pub outbound: Vec<Vec<u8>>,
    /// Messages arriving from the client, oldest first.
    pub inbound: Vec<Vec<u8>>,
}

impl Session {
    /// The session's resource invariant: the subscription is bound exactly
    /// while the session is open.
    pub open spec fn wf(&self) -> bool {
        self.subscribed <==> self.state is Open
    }

    /// A fresh session for a validated handshake: Pending, nothing bound,
    /// both queues empty.
    pub fn new() -> (s: Session)
        ensures
            s.wf(),
            s.state is Pending,
            !s.subscribed,
            s.outbound@.len() == 0,
            s.inbound@.len() == 0,
    {
        Session { state: SessionState::Pending, subscribed: false, outbound: Vec::new(), inbound: Vec::new() }
    }

    /// Advances the session by one observed event.  Returns whether a bound
    /// subscription was released by this step.
    ///
    /// Opening binds the subscription; any close-like event — an orderly
    /// close from either side, a stream error, or the destruction of the
    /// underlying connection — moves the session to Closed and releases
    /// whatever was bound.  Closed is absorbing.
    pub fn step(&mut self, ev: SessionEvent) -> (released: bool)
        requires
            old(self).wf(),
        ensures
            final(self).wf(),
            (old(self).state is Pending && ev is Opened) ==> (final(self).state is Open
                && final(self).subscribed),
            (ev is CloseSignal || ev is StreamError || ev is ConnectionClosed)
                ==> (final(self).state is Closed && !final(self).subscribed),
            old(self).state is Closed ==> final(self).state is Closed,
            !(old(self).state is Pending && ev is Opened) && !(ev is CloseSignal || ev
                is StreamError || ev is ConnectionClosed) ==> final(self).state == old(self).state,
            released == (old(self).subscribed && !final(self).subscribed),
            final(self).outbound@ == old(self).outbound@,
            final(self).inbound@ == old(self).inbound@,
    {
        let was_subscribed = self.subscribed;
        match ev {
            SessionEvent::Opened => {
                if matches!(self.state, SessionState::Pending) {
                    self.state = SessionState::Open;
                    self.subscribed = true;
                }
            },
            SessionEvent::CloseSignal | SessionEvent::StreamError
            | SessionEvent::ConnectionClosed => {
                self.state = SessionState::Closed;
                self.subscribed = false;
            },
        }
        was_subscribed && !self.subscribed
    }

    /// Queues one message toward the client.  Order within this direction is
    /// preserved: the message goes to the back, everything already queued
    /// keeps its place.
    pub fn send(&mut self, msg: Vec<u8>)
        requires
            old(self).state is Open,
        ensures
            final(self).outbound@ == old(self).outbound@.push(msg),
            final(self).inbound@ == old(self).inbound@,
            final(self).state == old(self).state,
            final(self).subscribed == old(self).subscribed,
    {
        self.outbound.push(msg);
    }

    /// Records one message arriving from the client, behind those already
    /// received.
    pub fn receive(&mut self, msg: Vec<u8>)
        requires
            old(self).state is Open,
        ensures
            final(self).inbound@ == old(self).inbound@.push(msg),
            final(self).outbound@ == old(self).outbound@,
            final(self).state == old(self).state,
            final(self).subscribed == old(self).subscribed,
    {
        self.inbound.push(msg);
    }

    /// Takes the oldest queued outbound message, if any: first in, first
    /// out, so order within the direction is preserved on the wire.
    pub fn next_outbound(&mut self) -> (r: Option<Vec<u8>>)
        ensures
            old(self).outbound@.len() == 0
                ==> (r is None && final(self).outbound@ == old(self).outbound@),
            old(self).outbound@.len() > 0 ==> (r matches Some(m) && m@ == old(self).outbound@[0]@
                && final(self).outbound@ == old(self).outbound@.drop_first()),
            final(self).inbound@ == old(self).inbound@,
            final(self).state == old(self).state,
            final(self).subscribed == old(self).subscribed,
    {
        if self.outbound.len() == 0 {
            None
        } else {
            let m = self.outbound.remove(0);
            proof {
                assert(self.outbound@ =~= old(self).outbound@.drop_first());
            }
            Some(m)
        }
    }

    /// Takes the oldest message received from the client, if any.
    pub fn next_inbound(&mut self) -> (r: Option<Vec<u8>>)
        ensures
            old(self).inbound@.len() == 0
                ==> (r is None && final(self).inbound@ == old(self).inbound@),
            old(self).inbound@.len() > 0 ==> (r matches Some(m) && m@ == old(self).inbound@[0]@
                && final(self).inbound@ == old(self).inbound@.drop_first()),
            final(self).outbound@ == old(self).outbound@,
            final(self).state == old(self).state,
            final(self).subscribed == old(self).subscribed,
    {
        if self.inbound.len() == 0 {
            None
        } else {
            let m = self.inbound.remove(0);
            proof {
                assert(self.inbound@ =~= old(self).inbound@.drop_first());
            }
            Some(m)
        }
    }
}

} // verus!
