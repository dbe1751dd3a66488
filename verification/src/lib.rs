//! Decision core of a local control-plane server.
//!
//! The server exposes an HTTP-shaped API to same-machine clients over a local
//! interprocess channel (a Unix domain socket or a Windows named pipe).  This
//! crate holds everything about that server that is a pure decision: how an
//! endpoint is provisioned and secured, how requests are dispatched against a
//! shared routing table, when a connection is upgraded to a persistent event
//! stream, how the upgrade session's lifecycle evolves, how failures are
//! contained, and the wire envelope of the core-start route.  The asynchronous
//! I/O shell that drives these decisions lives outside the library.

use vstd::prelude::*;

pub mod envelope;
pub mod errors;
pub mod routing;
pub mod server;
pub mod session;
pub mod transport;

verus! {

/// Compares two byte strings for equality of their contents.
pub fn bytes_eq(a: &[u8], b: &[u8]) -> (r: bool)
    ensures
        r <==> a@ == b@,
{
    if a.len() != b.len() {
        proof {
            assert(a@ != b@);
        }
        return false;
    }
    let mut i: usize = 0;
    while i < a.len()
        invariant
            0 <= i <= a.len(),
            a@.len() == b@.len(),
            forall|j: int| 0 <= j < i ==> a@[j] == b@[j],
        decreases a.len() - i,
    {
        if a[i] != b[i] {
            return false;
        }
        i += 1;
    }
    proof {
        assert(a@ =~= b@);
    }
    true
}

} // verus!
