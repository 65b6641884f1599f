//! The route table: one handler for each distinct (method, path) pair.
use vstd::prelude::*;
use crate::assoc::{assoc_map, distinct_keys, lemma_assoc_absent, lemma_assoc_index, lemma_assoc_push, lemma_assoc_update};
use crate::message::{HttpMethod, MethodView};

verus! {

/// The key of a route: a method and an exact path.
pub type RouteKey = (MethodView, Seq<char>);

/// A route: the method and the exact path that select a handler.
#[derive(Clone, Debug)]
pub struct Route {
    pub method: HttpMethod,
    pub path: String,
}

impl View for Route {
    type V = RouteKey;

    open spec fn view(&self) -> RouteKey {
        (self.method@, self.path@)
    }
}

/// The keys of a sequence of bindings, each with its handler.
pub open spec fn keyed<H>(s: Seq<(Route, H)>) -> Seq<(RouteKey, H)> {
    s.map_values(|e: (Route, H)| (e.0@, e.1))
}

/// A table from routes to handlers. Paths match exactly: no patterns, no
/// parameters, no normalisation of a trailing slash.
pub struct Router<H> {
    entries: Vec<(Route, H)>,
}

impl<H> View for Router<H> {
    type V = Map<RouteKey, H>;

    open spec fn view(&self) -> Map<RouteKey, H> {
        assoc_map(self.bindings())
    }
}

/// Registering a route twice leaves one binding for it, to the later handler.
pub proof fn lemma_last_registration_wins<H>(table: Map<RouteKey, H>, key: RouteKey, first: H, second: H)
    ensures
        table.insert(key, first).insert(key, second) == table.insert(key, second),
        table.insert(key, first).insert(key, second)[key] == second,
        table.insert(key, first).insert(key, second).dom() == table.dom().insert(key),
{
    assert(table.insert(key, first).insert(key, second) =~= table.insert(key, second));
    assert(table.insert(key, second).dom() =~= table.dom().insert(key));
}

impl<H> Router<H> {
    /// The bindings, in the order in which their routes were first registered.
    pub closed spec fn bindings(&self) -> Seq<(RouteKey, H)> {
        keyed(self.entries@)
    }

    /// No route is bound twice.
    pub open spec fn wf(&self) -> bool {
        distinct_keys(self.bindings())
    }

    pub fn new() -> (r: Router<H>)
        ensures
            r.wf(),
            r@ == Map::<RouteKey, H>::empty(),
    {
        let r = Router { entries: Vec::new() };
        assert(r.bindings() =~= Seq::<(RouteKey, H)>::empty());
        r
    }

    /// The number of bound routes.
    pub fn len(&self) -> (r: usize)
        ensures
            r == self.bindings().len(),
    {
        self.entries.len()
    }

    fn position(&self, method: &HttpMethod, path: &String) -> (r: Option<usize>)
        ensures
            match r {
                Some(i) => i < self.bindings().len() && self.bindings()[i as int].0 == (method@, path@),
                None => forall|j: int| 0 <= j < self.bindings().len()
                    ==> self.bindings()[j].0 != (method@, path@),
            },
    {
        let mut i: usize = 0;
        while i < self.entries.len()
            invariant
                i <= self.entries@.len(),
                forall|j: int| 0 <= j < i ==> self.bindings()[j].0 != (method@, path@),
            decreases self.entries@.len() - i,
        {
            let route = &self.entries[i].0;
            if route.method.same_as(method) && route.path == *path {
                return Some(i);
            }
            i = i + 1;
        }
        None
    }

    /// Binds `handler` to `(method, path)`; a handler bound there before is replaced.
    pub fn register(&mut self, method: HttpMethod, path: &str, handler: H)
        requires
            old(self).wf(),
        ensures
            final(self).wf(),
            final(self)@ == old(self)@.insert((method@, path@), handler),
    {
        let ghost s = self.bindings();
        let ghost key = (method@, path@);
        let path = path.to_owned();
        match self.position(&method, &path) {
            Some(i) => {
                proof {
                    lemma_assoc_update(s, i as int, handler);
                }
                self.entries.set(i, (Route { method, path }, handler));
                assert(self.bindings() =~= s.update(i as int, (s[i as int].0, handler)));
            },
            None => {
                self.entries.push((Route { method, path }, handler));
                assert(self.bindings() =~= s.push((key, handler)));
                proof {
                    lemma_assoc_push(s, key, handler);
                }
            },
        }
    }

    /// The handler bound to `(method, path)`, if any.
    pub fn lookup(&self, method: &HttpMethod, path: &str) -> (r: Option<&H>)
        requires
            self.wf(),
        ensures
            match r {
                Some(h) => self@.contains_key((method@, path@)) && self@[(method@, path@)] == *h,
                None => !self@.contains_key((method@, path@)),
            },
    {
        let path = path.to_owned();
        match self.position(method, &path) {
            Some(i) => {
                proof {
                    lemma_assoc_index(self.bindings(), i as int);
                }
                Some(&self.entries[i].1)
            },
            None => {
                proof {
                    lemma_assoc_absent(self.bindings(), (method@, path@));
                }
                None
            },
        }
    }
}

} // verus!
