//! A simple, path-keyed route registry: each registered path carries an
//! optional HTTP method.  Registering a path again replaces its entry.  This
//! is the flat registry the server exposes for bookkeeping; pattern matching
//! against inbound requests lives in the dispatch module.

use vstd::prelude::*;
use crate::strmap::{assoc_get, assoc_without, StrMap};

verus! {

/// What is known about one registered route.
#[derive(Debug, Clone)]
pub struct RouteInfo {
    pub path: String,
    pub method: Option<String>,
}

impl View for RouteInfo {
    type V = (Seq<char>, Option<Seq<char>>);

    open spec fn view(&self) -> (Seq<char>, Option<Seq<char>>) {
        (self.path@, match self.method {
            Some(m) => Some(m@),
            None => None,
        })
    }
}

impl RouteInfo {
    /// A copy whose fields read the same.
    fn duplicate(&self) -> (r: Self)
        ensures
            r@ == self@,
    {
        RouteInfo {
            path: self.path.clone(),
            method: match &self.method {
                Some(m) => Some(m.clone()),
                None => None,
            },
        }
    }
}

/// A thread-local route registry keyed by path.
pub struct Router {
    routes: StrMap<RouteInfo>,
}

impl Router {
    /// The registered entries, keyed by path, in registration order.
    pub closed spec fn view(&self) -> Seq<(String, RouteInfo)> {
        self.routes@
    }

    /// No path occurs twice.
    pub closed spec fn wf(&self) -> bool {
        self.routes.wf()
    }

    /// The entry registered under `path`.
    pub open spec fn spec_find(&self, path: Seq<char>) -> Option<RouteInfo> {
        assoc_get(self@, path)
    }

    /// An empty registry.
    pub fn new() -> (r: Self)
        ensures
            r@ =~= Seq::<(String, RouteInfo)>::empty(),
            r.wf(),
    {
        Router { routes: StrMap::new() }
    }

    /// Registers `path`, replacing any earlier entry for it: the new entry
    /// goes to the end of the sequence, so the path is listed exactly once
    /// and the count grows only when the path was new.
    pub fn add_route(&mut self, path: String, method: Option<String>)
        requires
            old(self).wf(),
        ensures
            final(self).wf(),
            final(self)@ == assoc_without(old(self)@, path@).push(
                (path, (RouteInfo { path, method })),
            ),
            final(self)@.len() == old(self)@.len() + (if old(self).spec_find(path@) is Some {
                0int
            } else {
                1int
            }),
            final(self).spec_find(path@) matches Some(info) && info@ == (
                path@,
                match method {
                    Some(m) => Some(m@),
                    None => None::<Seq<char>>,
                },
            ),
            forall|q: Seq<char>|
                q != path@ ==> #[trigger] final(self).spec_find(q) == old(self).spec_find(q),
    {
        let ghost s0 = self@;
        let key = path.clone();
        self.routes.insert(key, RouteInfo { path, method });
        proof {
            crate::strmap::lemma_assoc_without_facts(s0, path@);
            assert forall|q: Seq<char>| q != path@ implies #[trigger] final(self).spec_find(q)
                == old(self).spec_find(q) by {
                assert(final(self).routes.spec_get(q) == old(self).routes.spec_get(q));
            }
        }
    }

    /// Removes the entry for `path`; tells whether one existed, in which
    /// case the count drops by exactly one.
    pub fn remove_route(&mut self, path: &str) -> (r: bool)
        requires
            old(self).wf(),
        ensures
            final(self).wf(),
            r == (old(self).spec_find(path@) is Some),
            final(self)@ == assoc_without(old(self)@, path@),
            final(self)@.len() == old(self)@.len() - (if old(self).spec_find(path@) is Some {
                1int
            } else {
                0int
            }),
            final(self).spec_find(path@) is None,
            forall|q: Seq<char>|
                q != path@ ==> #[trigger] final(self).spec_find(q) == old(self).spec_find(q),
    {
        let ghost s0 = self@;
        let r = self.routes.remove(path);
        proof {
            crate::strmap::lemma_assoc_without_facts(s0, path@);
            assert forall|q: Seq<char>| #[trigger] final(self).spec_find(q) == if q == path@ {
                None::<RouteInfo>
            } else {
                assoc_get(s0, q)
            } by {
                crate::strmap::lemma_assoc_get_without(s0, path@, q);
            }
        }
        r.is_some()
    }

    /// Whether `path` is registered.
    pub fn has_route(&self, path: &str) -> (r: bool)
        ensures
            r == (self.spec_find(path@) is Some),
    {
        self.routes.contains_key(path)
    }

    /// The entry registered under `path`, if any.
    pub fn find_route(&self, path: &str) -> (r: Option<RouteInfo>)
        ensures
            match r {
                Some(info) => self.spec_find(path@) matches Some(stored) && stored@ == info@,
                None => self.spec_find(path@) is None,
            },
    {
        match self.routes.get(path) {
            Some(info) => Some(info.duplicate()),
            None => None,
        }
    }

    /// All registered paths, in registration order.
    pub fn get_routes(&self) -> (r: Vec<String>)
        ensures
            r@.len() == self@.len(),
            forall|i: int| 0 <= i < r@.len() ==> #[trigger] r@[i]@ == self@[i].0@,
    {
        self.routes.keys()
    }

    /// All entries, in registration order, each reading as stored.
    pub fn get_route_info(&self) -> (r: Vec<RouteInfo>)
        ensures
            r@.len() == self@.len(),
            forall|i: int| 0 <= i < r@.len() ==> #[trigger] r@[i]@ == self@[i].1@,
    {
        let mut out: Vec<RouteInfo> = Vec::new();
        let n = self.routes.len();
        let mut i: usize = 0;
        while i < n
            invariant
                i <= n,
                n == self@.len(),
                out@.len() == i,
                forall|j: int| 0 <= j < i ==> #[trigger] out@[j]@ == self@[j].1@,
            decreases n - i,
        {
            out.push(self.routes.get_index(i).1.duplicate());
            i = i + 1;
        }
        out
    }

    /// Drops every entry.
    pub fn clear(&mut self)
        ensures
            final(self)@ =~= Seq::<(String, RouteInfo)>::empty(),
            final(self).wf(),
    {
        self.routes.clear();
    }

    /// How many routes are registered.
    pub fn count(&self) -> (n: u32)
        requires
            self@.len() <= u32::MAX,
        ensures
            n == self@.len(),
    {
        self.routes.len() as u32
    }
}

} // verus!
