//! The route table: maps a URL path to a handler, by exact match or, for
//! registered paths ending in `/`, by longest-prefix match.  Routes are
//! added once at startup and immutable during request serving; a duplicate
//! registration is a configuration error reported at registration, never
//! at dispatch.

use vstd::prelude::*;
use crate::error::Error;
use crate::strkit::{starts_with, str_equal};

verus! {

/// Whether a registered path is a prefix route: it ends in the `/`
/// marker, and matches every request path it is a prefix of.
pub open spec fn is_prefix_route(p: Seq<char>) -> bool {
    p.len() > 0 && p[p.len() - 1] == '/'
}

/// Whether the route registered under `route_path` serves `path`.
pub open spec fn route_matches(route_path: Seq<char>, path: Seq<char>) -> bool {
    if is_prefix_route(route_path) {
        route_path.is_prefix_of(path)
    } else {
        route_path == path
    }
}

/// One registered route.
#[derive(Debug, Clone)]
pub struct RouteEntry<H> {
    pub path: String,
    pub handler: H,
}

/// Whether some registered route serves `path`.
pub open spec fn some_route_matches<H>(routes: Seq<RouteEntry<H>>, path: Seq<char>) -> bool {
    exists|i: int| 0 <= i < routes.len() && route_matches(routes[i].path@, path)
}

/// Whether an exact (non-prefix) route is registered under `path` itself.
pub open spec fn exact_route_exists<H>(routes: Seq<RouteEntry<H>>, path: Seq<char>) -> bool {
    exists|i: int|
        0 <= i < routes.len() && !is_prefix_route(routes[i].path@) && routes[i].path@ == path
}

/// Whether route `i` is the most specific route serving `path`: an exact
/// match when one exists, else a longest matching prefix route.
pub open spec fn is_best_route<H>(routes: Seq<RouteEntry<H>>, path: Seq<char>, i: int) -> bool {
    &&& 0 <= i < routes.len()
    &&& route_matches(routes[i].path@, path)
    &&& if exact_route_exists(routes, path) {
        !is_prefix_route(routes[i].path@) && routes[i].path@ == path
    } else {
        forall|j: int|
            0 <= j < routes.len() && route_matches(#[trigger] routes[j].path@, path)
                ==> routes[j].path@.len() <= routes[i].path@.len()
    }
}

/// Maps URL paths to handlers.  `H` is whatever stands for a handler:
/// an identifying tag, or a callable the surrounding program dispatches
/// on.
#[derive(Debug, Clone)]
pub struct RouteTable<H> {
    pub routes: Vec<RouteEntry<H>>,
}

/// Tests whether a registered path is a prefix route.
pub fn path_is_prefix_route(p: &str) -> (b: bool)
    ensures
        b == is_prefix_route(p@),
{
    let n: usize = vstd::string::StrSliceExecFns::unicode_len(p);
    if n == 0 {
        false
    } else {
        vstd::string::StrSliceExecFns::get_char(p, n - 1) == '/'
    }
}

impl<H: Copy> RouteTable<H> {
    /// Registered paths are pairwise distinct, so dispatch never faces a
    /// tie.
    pub open spec fn wf(self) -> bool {
        forall|i: int, j: int|
            0 <= i < j < self.routes@.len() ==> self.routes@[i].path@ != self.routes@[j].path@
    }

    /// An empty table.
    pub fn new() -> (r: RouteTable<H>)
        ensures
            r.wf(),
            r.routes@.len() == 0,
    {
        RouteTable { routes: Vec::new() }
    }

    /// Registers `handler` under `path` — an exact path, or a prefix when
    /// it ends in `/`.  Registering a path twice is a configuration error
    /// and fails with `RouteConflict`, leaving the table unchanged.
    pub fn add_route(&mut self, path: String, handler: H) -> (r: Result<(), Error>)
        requires
            old(self).wf(),
        ensures
            final(self).wf(),
            r is Ok <==> !(exists|i: int|
                0 <= i < old(self).routes@.len() && old(self).routes@[i].path@ == path@),
            r is Ok ==> ({
                &&& final(self).routes@.len() == old(self).routes@.len() + 1
                &&& final(self).routes@[old(self).routes@.len() as int].path@ == path@
                &&& final(self).routes@[old(self).routes@.len() as int].handler == handler
                &&& forall|i: int|
                    0 <= i < old(self).routes@.len() ==> final(self).routes@[i] == old(
                        self,
                    ).routes@[i]
            }),
            r is Err ==> *final(self) == *old(self) && r->Err_0 == Error::RouteConflict,
    {
        let n = self.routes.len();
        let mut i: usize = 0;
        while i < n
            invariant
                i <= n,
                n == self.routes@.len(),
                self.wf(),
                *self == *old(self),
                forall|j: int| 0 <= j < i ==> self.routes@[j].path@ != path@,
            decreases n - i,
        {
            if str_equal(self.routes[i].path.as_str(), path.as_str()) {
                assert(self.routes@[i as int].path@ == path@);
                return Err(Error::RouteConflict);
            }
            i = i + 1;
        }
        let ghost pre = self.routes@;
        self.routes.push(RouteEntry { path, handler });
        proof {
            assert forall|a: int, b: int|
                0 <= a < b < self.routes@.len() implies self.routes@[a].path@
                != self.routes@[b].path@ by {
                if b == self.routes@.len() - 1 {
                    assert(pre[a].path@ != self.routes@[b].path@);
                } else {
                    assert(pre[a].path@ != pre[b].path@);
                }
            }
        }
        Ok(())
    }

    /// Tests whether a route is registered under exactly `path`.
    pub fn has_route(&self, path: &str) -> (b: bool)
        ensures
            b == exists|i: int|
                0 <= i < self.routes@.len() && #[trigger] self.routes@[i].path@ == path@,
    {
        let n = self.routes.len();
        let mut i: usize = 0;
        while i < n
            invariant
                i <= n,
                n == self.routes@.len(),
                forall|j: int| 0 <= j < i ==> self.routes@[j].path@ != path@,
            decreases n - i,
        {
            if str_equal(self.routes[i].path.as_str(), path) {
                assert(self.routes@[i as int].path@ == path@);
                return true;
            }
            i = i + 1;
        }
        false
    }

    /// Selects the most specific route serving `path`: an exact match
    /// wins over every prefix match, and among prefix matches the longest
    /// wins.  Returns nothing when no route matches; answering such a
    /// request is the listener's business.
    pub fn dispatch(&self, path: &str) -> (r: Option<H>)
        requires
            self.wf(),
        ensures
            r is Some <==> some_route_matches(self.routes@, path@),
            r is Some ==> exists|i: int|
                #[trigger] is_best_route(self.routes@, path@, i) && r->0 == self.routes@[i].handler,
    {
        let n = self.routes.len();
        let mut best: Option<usize> = None;
        let mut best_len: usize = 0;
        let mut i: usize = 0;
        while i < n
            invariant
                i <= n,
                n == self.routes@.len(),
                self.wf(),
                forall|j: int|
                    0 <= j < i ==> !(!is_prefix_route(#[trigger] self.routes@[j].path@)
                        && self.routes@[j].path@ == path@),
                best is None ==> forall|j: int|
                    0 <= j < i ==> !route_matches(#[trigger] self.routes@[j].path@, path@),
                best matches Some(b) ==> ({
                    &&& 0 <= b < i
                    &&& route_matches(self.routes@[b as int].path@, path@)
                    &&& best_len == self.routes@[b as int].path@.len()
                    &&& forall|j: int|
                        0 <= j < i && route_matches(#[trigger] self.routes@[j].path@, path@)
                            ==> self.routes@[j].path@.len() <= best_len
                }),
            decreases n - i,
        {
            let rp = &self.routes[i].path;
            let rp_len: usize = vstd::string::StrSliceExecFns::unicode_len(rp.as_str());
            if path_is_prefix_route(rp.as_str()) {
                if starts_with(path, rp.as_str()) {
                    let better = match best {
                        Some(_) => rp_len > best_len,
                        None => true,
                    };
                    if better {
                        best = Some(i);
                        best_len = rp_len;
                    }
                }
            } else {
                if str_equal(path, rp.as_str()) {
                    assert(!is_prefix_route(self.routes@[i as int].path@)
                        && self.routes@[i as int].path@ == path@);
                    assert(is_best_route(self.routes@, path@, i as int));
                    return Some(self.routes[i].handler);
                }
            }
            i = i + 1;
        }
        proof {
            assert(!exact_route_exists(self.routes@, path@));
        }
        match best {
            Some(b) => {
                assert(is_best_route(self.routes@, path@, b as int));
                Some(self.routes[b].handler)
            },
            None => {
                assert(!some_route_matches(self.routes@, path@));
                None
            },
        }
    }
}

} // verus!
