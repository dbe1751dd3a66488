//! Route matching over the shared, read-only routing table.
//!
//! One relative path is reserved: a request for it switches the connection
//! into an upgrade session instead of producing an ordinary response.  Every
//! other request is matched against the routing table and, when a route is
//! found, handed over with its payload untouched.

use vstd::prelude::*;

verus! {

/// The reserved relative path, `/ws`, that triggers the upgrade session.
pub open spec fn reserved_path() -> Seq<u8> {
    seq!['/' as u8, 'w' as u8, 's' as u8]
}

/// Builds the reserved path as bytes, for callers that frame requests.
pub fn reserved_path_bytes() -> (r: Vec<u8>)
    ensures
        r@ == reserved_path(),
{
    let mut r: Vec<u8> = Vec::new();
    r.push('/' as u8);
    r.push('w' as u8);
    r.push('s' as u8);
    proof {
        assert(r@ =~= reserved_path());
    }
    r
}

/// The immutable routing table: one entry per application route, identified
/// by its index.  It is finalized before the accept loop starts and shared
/// read-only by every connection.
pub struct Router {
    pub routes: Vec<Vec<u8>>,
}

impl Router {
    /// A routing table is well formed when no application route shadows the
    /// reserved upgrade path.
    pub open spec fn wf(&self) -> bool {
        forall|i: int| 0 <= i < self.routes@.len() ==> self.routes@[i]@ != reserved_path()
    }

    /// An empty table, to be extended before serving starts.
    pub fn new() -> (r: Router)
        ensures
            r.wf(),
            r.routes@.len() == 0,
    {
        Router { routes: Vec::new() }
    }

    /// Registers one more application route.  Rejects the reserved path, so
    /// the table stays well formed.
    pub fn add_route(&mut self, path: Vec<u8>) -> (r: Result<usize, ()>)
        requires
            old(self).wf(),
        ensures
            final(self).wf(),
            path@ == reserved_path() ==> r is Err && final(self).routes@ == old(self).routes@,
            path@ != reserved_path() ==> (r matches Ok(i) && i == old(self).routes@.len()
                && final(self).routes@ == old(self).routes@.push(path)),
    {
        let reserved = reserved_path_bytes();
        if crate::bytes_eq(path.as_slice(), reserved.as_slice()) {
            Err(())
        } else {
            let i = self.routes.len();
            self.routes.push(path);
            Ok(i)
        }
    }
}

/// What the engine decides to do with one request path.
pub enum Dispatch {
    /// The reserved path: negotiate an upgrade session.
    Upgrade,
    /// An application route, by its index in the table.
    Route(usize),
    /// No route matches: an ordinary not-found response.
    NotFound,
}

/// Matches one request path against the table.
///
/// Only the reserved path ever yields `Upgrade`, whatever else the request
/// carries; an application route is found by first match.
pub fn dispatch(router: &Router, path: &[u8]) -> (r: Dispatch)
    ensures
        (r is Upgrade) <==> path@ == reserved_path(),
        r matches Dispatch::Route(i) ==> (0 <= i < router.routes@.len()
            && router.routes@[i as int]@ == path@
            && (forall|j: int| 0 <= j < i ==> router.routes@[j]@ != path@)
            && path@ != reserved_path()),
        (r is NotFound) ==> path@ != reserved_path()
            && (forall|j: int| 0 <= j < router.routes@.len() ==> router.routes@[j]@ != path@),
{
    let reserved = reserved_path_bytes();
    if crate::bytes_eq(path, reserved.as_slice()) {
        return Dispatch::Upgrade;
    }
    let mut i: usize = 0;
    while i < router.routes.len()
        invariant
            0 <= i <= router.routes@.len(),
            path@ != reserved_path(),
            forall|j: int| 0 <= j < i ==> router.routes@[j]@ != path@,
        decreases router.routes@.len() - i,
    {
        if crate::bytes_eq(router.routes[i].as_slice(), path) {
            return Dispatch::Route(i);
        }
        i += 1;
    }
    Dispatch::NotFound
}

/// The observable outcome of serving one request on a connection.
pub enum RequestOutcome {
    /// The connection was switched into an upgrade session.
    Upgraded,
    /// The request was handed to an application route, payload untouched.
    Routed { route: usize, payload: Vec<u8> },
    /// No route matched.
    NoRoute,
}

/// Serves one request: decides between upgrade, an application route, and
/// not-found, and passes the payload through unmodified to the bound route.
pub fn serve_request(router: &Router, path: &[u8], payload: Vec<u8>) -> (r: RequestOutcome)
    ensures
        (r is Upgraded) <==> path@ == reserved_path(),
        r matches RequestOutcome::Routed { route, payload: p } ==> (p@ == payload@
            && 0 <= route < router.routes@.len()
            && router.routes@[route as int]@ == path@
            && (forall|j: int| 0 <= j < route ==> router.routes@[j]@ != path@)),
        (r is NoRoute) ==> path@ != reserved_path()
            && (forall|j: int| 0 <= j < router.routes@.len() ==> router.routes@[j]@ != path@),
{
    match dispatch(router, path) {
        Dispatch::Upgrade => RequestOutcome::Upgraded,
        Dispatch::Route(i) => RequestOutcome::Routed { route: i, payload },
        Dispatch::NotFound => RequestOutcome::NoRoute,
    }
}

} // verus!
