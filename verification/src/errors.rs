//! The server's error taxonomy and its containment rules.
//!
//! Failures differ in how far they reach: endpoint provisioning and listener
//! failures are fatal to the whole server, an I/O or protocol failure on one
//! connection tears down that connection alone, and a route-level business
//! failure is surfaced as an error response while the connection stays usable.

use vstd::prelude::*;

verus! {

/// The error type of the transport layer, as surfaced to the process owner.
pub enum ServerError {
    /// An operating-system level I/O failure.
    Io(Vec<u8>),
    /// Any other failure, carried as a human-readable cause.
    Other(Vec<u8>),
}

impl ServerError {
    /// The human-readable cause carried by the error.
    pub fn message(&self) -> (r: &Vec<u8>)
        ensures
            self matches ServerError::Io(m) ==> r@ == m@,
            self matches ServerError::Other(m) ==> r@ == m@,
    {
        match self {
            ServerError::Io(m) => m,
            ServerError::Other(m) => m,
        }
    }
}

/// Where in the server a failure arose.
pub enum Fault {
    /// Endpoint create/secure/remove failure during provisioning.
    Transport(Vec<u8>),
    /// Listener-level failure of the accept loop (e.g. descriptor exhaustion).
    Accept(Vec<u8>),
    /// I/O or protocol violation scoped to one connection, by its identifier.
    Connection { conn: u64, message: Vec<u8> },
    /// Route-level business failure while handling one request.
    Handler(Vec<u8>),
}

/// How far a failure is allowed to reach.
pub enum Containment {
    /// Startup aborts; nothing was served.
    AbortStartup,
    /// The whole process must stop and be restarted by its owner.
    StopProcess,
    /// Exactly the one connection is torn down; no other is affected.
    CloseConnection(u64),
    /// An error response is sent; the connection stays usable.
    ErrorResponse,
}

/// The containment rule: transport failures abort startup, accept failures
/// stop the process, connection failures close exactly the failing
/// connection, and handler failures become an error response.
pub fn containment(f: &Fault) -> (r: Containment)
    ensures
        (f is Transport) <==> (r is AbortStartup),
        (f is Accept) <==> (r is StopProcess),
        f matches Fault::Connection { conn, .. } ==> r == Containment::CloseConnection(*conn),
        (r is CloseConnection) ==> f is Connection,
        (f is Handler) <==> (r is ErrorResponse),
{
    match f {
        Fault::Transport(_) => Containment::AbortStartup,
        Fault::Accept(_) => Containment::StopProcess,
        Fault::Connection { conn, .. } => Containment::CloseConnection(*conn),
        Fault::Handler(_) => Containment::ErrorResponse,
    }
}

} // verus!
