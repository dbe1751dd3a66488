//! The process-scoped accept-and-serve state machine.
//!
//! The listener moves Idle → Listening → Accepting and stays there, handing
//! each accepted connection to a task of its own; it leaves Accepting only
//! for an unrecoverable listener-level failure, which stops the process.
//! Every I/O or protocol failure on a connection is contained to that
//! connection: it is torn down and no other connection's state is touched.

use vstd::prelude::*;

verus! {

/// The listener's phase.
#[derive(PartialEq, Eq, Structural, Clone, Copy, Debug)]
pub enum Phase {
    /// Nothing provisioned yet.
    Idle,
    /// The endpoint is bound and secured; accepting has not started.
    Listening,
    /// The accept loop runs.
    Accepting,
    /// Shutdown was requested: no new accepts; in-flight connections drain.
    Draining,
    /// An unrecoverable listener failure, or the drain finished; the process
    /// owner takes over.
    Stopped,
}

/// One connection's serving state.
#[derive(PartialEq, Eq, Structural, Clone, Copy, Debug)]
pub enum ConnState {
    /// Ordinary request/response serving.
    Serving,
    /// Switched into an upgrade session by the reserved path.
    Upgraded,
    /// Torn down, cleanly or by a connection-local failure.
    Closed,
}

/// A connection-local event, as the serving task reports it.
#[derive(PartialEq, Eq, Structural, Clone, Copy, Debug)]
pub enum ConnEvent {
    /// A request for the reserved path upgraded the connection.
    Upgraded,
    /// An I/O or protocol failure; the connection is torn down.
    Failed,
    /// The peer closed, or serving finished.
    Closed,
}

/// One tracked connection.
#[derive(PartialEq, Eq, Structural, Clone, Copy, Debug)]
pub struct Connection {
    /// The identifier the server handed out at accept time.
    pub id: u64,
    /// The connection's serving state.
    pub state: ConnState,
}

/// What one connection becomes under one event: an upgrade takes effect only
/// while the connection is serving; failure and close always tear it down.
pub open spec fn conn_next(s: ConnState, ev: ConnEvent) -> ConnState {
    match ev {
        ConnEvent::Upgraded => if s is Serving {
            ConnState::Upgraded
        } else {
            s
        },
        ConnEvent::Failed => ConnState::Closed,
        ConnEvent::Closed => ConnState::Closed,
    }
}

/// The whole server's state: the listener's phase and every connection that
/// has been accepted, each under a distinct identifier.
pub struct ServerState {
    /// The listener's phase.
    pub phase: Phase,
    /// Every accepted connection, in accept order.
    pub conns: Vec<Connection>,
    /// The identifier the next accepted connection will get.
    pub next_id: u64,
}

impl ServerState {
    /// Identifiers are distinct and below the next one to be handed out.
    pub open spec fn wf(&self) -> bool {
        &&& forall|i: int, j: int|
            0 <= i < j < self.conns@.len() ==> self.conns@[i].id != self.conns@[j].id
        &&& forall|i: int| 0 <= i < self.conns@.len() ==> self.conns@[i].id < self.next_id
    }

    /// A fresh server: idle, no connections.
    pub fn new() -> (s: ServerState)
        ensures
            s.wf(),
            s.phase is Idle,
            s.conns@.len() == 0,
            s.next_id == 0,
    {
        ServerState { phase: Phase::Idle, conns: Vec::new(), next_id: 0 }
    }

    /// The provisioner handed over a bound, secured endpoint.
    pub fn endpoint_ready(&mut self)
        requires
            old(self).wf(),
            old(self).phase is Idle,
        ensures
            final(self).wf(),
            final(self).phase is Listening,
            final(self).conns@ == old(self).conns@,
            final(self).next_id == old(self).next_id,
    {
        self.phase = Phase::Listening;
    }

    /// The accept loop starts; the routing table is final from here on.
    pub fn start_accepting(&mut self)
        requires
            old(self).wf(),
            old(self).phase is Listening,
        ensures
            final(self).wf(),
            final(self).phase is Accepting,
            final(self).conns@ == old(self).conns@,
            final(self).next_id == old(self).next_id,
    {
        self.phase = Phase::Accepting;
    }

    /// One connection was accepted: it gets a fresh identifier and a task of
    /// its own, and every other connection is left exactly as it was.
    pub fn accept(&mut self) -> (id: u64)
        requires
            old(self).wf(),
            old(self).phase is Accepting,
            old(self).next_id < u64::MAX,
        ensures
            final(self).wf(),
            final(self).phase is Accepting,
            id == old(self).next_id,
            final(self).next_id == old(self).next_id + 1,
            final(self).conns@ == old(self).conns@.push(
                Connection { id, state: ConnState::Serving },
            ),
    {
        let id = self.next_id;
        self.conns.push(Connection { id, state: ConnState::Serving });
        self.next_id = id + 1;
        id
    }

    /// An unrecoverable listener-level failure: the whole server stops; the
    /// connections' states are not what stops it and are left as they are.
    pub fn listener_failure(&mut self)
        requires
            old(self).wf(),
        ensures
            final(self).wf(),
            final(self).phase is Stopped,
            final(self).conns@ == old(self).conns@,
            final(self).next_id == old(self).next_id,
    {
        self.phase = Phase::Stopped;
    }

    /// A connection-local event: exactly the named connection moves, by
    /// [`conn_next`]; every other connection, the phase, and the identifier
    /// counter are untouched.  A failure on one connection can never reach
    /// another.
    pub fn conn_event(&mut self, id: u64, ev: ConnEvent)
        requires
            old(self).wf(),
        ensures
            final(self).wf(),
            final(self).phase == old(self).phase,
            final(self).next_id == old(self).next_id,
            final(self).conns@.len() == old(self).conns@.len(),
            forall|j: int|
                0 <= j < old(self).conns@.len() && old(self).conns@[j].id != id
                    ==> final(self).conns@[j] == old(self).conns@[j],
            forall|j: int|
                0 <= j < old(self).conns@.len() && old(self).conns@[j].id == id
                    ==> final(self).conns@[j] == (Connection {
                        id,
                        state: conn_next(old(self).conns@[j].state, ev),
                    }),
    {
        let n = self.conns.len();
        let mut i: usize = 0;
        while i < n
            invariant
                0 <= i <= n,
                n == self.conns@.len(),
                self.conns@.len() == old(self).conns@.len(),
                self.phase == old(self).phase,
                self.next_id == old(self).next_id,
                forall|j: int| i <= j < self.conns@.len() ==> self.conns@[j] == old(self).conns@[j],
                forall|j: int|
                    0 <= j < i && old(self).conns@[j].id != id
                        ==> self.conns@[j] == old(self).conns@[j],
                forall|j: int|
                    0 <= j < i && old(self).conns@[j].id == id ==> self.conns@[j] == (Connection {
                        id,
                        state: conn_next(old(self).conns@[j].state, ev),
                    }),
            decreases n - i,
        {
            if self.conns[i].id == id {
                let next = conn_step(self.conns[i].state, ev);
                self.conns[i] = Connection { id, state: next };
            }
            i += 1;
        }
        proof {
            assert(self.wf()) by {
                assert(forall|j: int|
                    0 <= j < self.conns@.len() ==> self.conns@[j].id == old(self).conns@[j].id);
            }
        }
    }
}

impl ServerState {
    /// A graceful shutdown was requested: the accept loop stops taking new
    /// connections, while those in flight keep serving so they can drain.
    pub fn request_shutdown(&mut self)
        requires
            old(self).wf(),
            old(self).phase is Accepting,
        ensures
            final(self).wf(),
            final(self).phase is Draining,
            final(self).conns@ == old(self).conns@,
            final(self).next_id == old(self).next_id,
    {
        self.phase = Phase::Draining;
    }

    /// The bounded drain timeout elapsed: whatever is still open is torn
    /// down and the server stops.
    pub fn drain_deadline(&mut self)
        requires
            old(self).wf(),
            old(self).phase is Draining,
        ensures
            final(self).wf(),
            final(self).phase is Stopped,
            final(self).next_id == old(self).next_id,
            final(self).conns@.len() == old(self).conns@.len(),
            forall|j: int|
                0 <= j < old(self).conns@.len() ==> final(self).conns@[j] == (Connection {
                    id: old(self).conns@[j].id,
                    state: ConnState::Closed,
                }),
    {
        let n = self.conns.len();
        let mut i: usize = 0;
        while i < n
            invariant
                0 <= i <= n,
                n == self.conns@.len(),
                self.conns@.len() == old(self).conns@.len(),
                self.phase == old(self).phase,
                self.next_id == old(self).next_id,
                forall|j: int| i <= j < self.conns@.len() ==> self.conns@[j] == old(self).conns@[j],
                forall|j: int|
                    0 <= j < i ==> self.conns@[j] == (Connection {
                        id: old(self).conns@[j].id,
                        state: ConnState::Closed,
                    }),
            decreases n - i,
        {
            let id = self.conns[i].id;
            self.conns[i] = Connection { id, state: ConnState::Closed };
            i += 1;
        }
        self.phase = Phase::Stopped;
        proof {
            assert(self.wf()) by {
                assert(forall|j: int|
                    0 <= j < self.conns@.len() ==> self.conns@[j].id == old(self).conns@[j].id);
            }
        }
    }
}

/// What one connection becomes under one event, as executable code.
pub fn conn_step(s: ConnState, ev: ConnEvent) -> (r: ConnState)
    ensures
        r == conn_next(s, ev),
{
    match ev {
        ConnEvent::Upgraded => {
            if matches!(s, ConnState::Serving) {
                ConnState::Upgraded
            } else {
                s
            }
        },
        ConnEvent::Failed => ConnState::Closed,
        ConnEvent::Closed => ConnState::Closed,
    }
}

} // verus!
