//! Which surface the events of a browser page go to.

use vstd::prelude::*;

use crate::node::SurfaceId;
use crate::text::same_text;

verus! {

/// A table from page names to surfaces, in the order of registration.
#[derive(Debug)]
pub struct RouteTable {
    entries: Vec<(String, SurfaceId)>,
}

/// The first place of `key` in a table.
pub open spec fn route_index(routes: Seq<(Seq<char>, SurfaceId)>, key: Seq<char>) -> Option<int>
    decreases routes.len(),
{
    if routes.len() == 0 {
        None
    } else {
        match route_index(routes.drop_last(), key) {
            Some(i) => Some(i),
            None => if routes.last().0 == key {
                Some(routes.len() - 1)
            } else {
                None
            },
        }
    }
}

/// The surface of `key`.
pub open spec fn route_to(routes: Seq<(Seq<char>, SurfaceId)>, key: Seq<char>) -> Option<SurfaceId> {
    match route_index(routes, key) {
        Some(i) => Some(routes[i].1),
        None => None,
    }
}

/// The table with `key` leading to `surface`.
pub open spec fn routed(
    routes: Seq<(Seq<char>, SurfaceId)>,
    key: Seq<char>,
    surface: SurfaceId,
) -> Seq<(Seq<char>, SurfaceId)> {
    match route_index(routes, key) {
        Some(i) => routes.update(i, (key, surface)),
        None => routes.push((key, surface)),
    }
}

/// The table without `key`.
pub open spec fn unrouted(routes: Seq<(Seq<char>, SurfaceId)>, key: Seq<char>) -> Seq<
    (Seq<char>, SurfaceId),
> {
    match route_index(routes, key) {
        Some(i) => routes.remove(i),
        None => routes,
    }
}

/// No name stands twice.
pub open spec fn routes_wf(routes: Seq<(Seq<char>, SurfaceId)>) -> bool {
    forall|i: int, j: int|
        0 <= i < routes.len() && 0 <= j < routes.len() && i != j ==> (#[trigger] routes[i]).0 != (
        #[trigger] routes[j]).0
}

pub proof fn lemma_route_index(routes: Seq<(Seq<char>, SurfaceId)>, key: Seq<char>)
    ensures
        match route_index(routes, key) {
            Some(i) => 0 <= i < routes.len() && routes[i].0 == key && forall|j: int|
                0 <= j < i ==> (#[trigger] routes[j]).0 != key,
            None => forall|j: int| 0 <= j < routes.len() ==> (#[trigger] routes[j]).0 != key,
        },
    decreases routes.len(),
{
    if routes.len() > 0 {
        let before = routes.drop_last();
        lemma_route_index(before, key);
        assert forall|j: int| 0 <= j < before.len() implies #[trigger] routes[j] == before[j] by {}
    }
}

/// What is registered is found, until it is taken out again; other names are
/// not touched.
pub proof fn law_routes(
    routes: Seq<(Seq<char>, SurfaceId)>,
    key: Seq<char>,
    surface: SurfaceId,
    other: Seq<char>,
)
    requires
        routes_wf(routes),
        other != key,
    ensures
        routes_wf(routed(routes, key, surface)),
        routes_wf(unrouted(routes, key)),
        route_to(routed(routes, key, surface), key) == Some(surface),
        route_to(unrouted(routes, key), key) is None,
        route_to(routed(routes, key, surface), other) == route_to(routes, other),
        route_to(unrouted(routes, key), other) == route_to(routes, other),
{
    lemma_route_index(routes, key);
    lemma_route_index(routes, other);
    let with = routed(routes, key, surface);
    let without = unrouted(routes, key);
    lemma_route_index(with, key);
    lemma_route_index(with, other);
    lemma_route_index(without, key);
    lemma_route_index(without, other);
    match route_index(routes, key) {
        Some(k) => {
            assert(with[k].0 == key);
            assert forall|j: int| 0 <= j < without.len() implies #[trigger] without[j]
                == routes[if j < k { j } else { j + 1 }] by {}
            if let Some(i) = route_index(routes, other) {
                assert(with[i] == routes[i]);
                assert(without[if i < k { i } else { i - 1 }] == routes[i]);
            }
        },
        None => {
            assert(with[routes.len() as int].0 == key);
            if let Some(i) = route_index(routes, other) {
                assert(with[i] == routes[i]);
            }
        },
    }
}

/// Routing and unrouting keep names apart.
proof fn lemma_routes_wf(routes: Seq<(Seq<char>, SurfaceId)>, key: Seq<char>, surface: SurfaceId)
    requires
        routes_wf(routes),
    ensures
        routes_wf(routed(routes, key, surface)),
        routes_wf(unrouted(routes, key)),
{
    let other = key.push('.');
    assert(other.len() != key.len());
    law_routes(routes, key, surface, other);
}

impl View for RouteTable {
    type V = Seq<(Seq<char>, SurfaceId)>;

    closed spec fn view(&self) -> Seq<(Seq<char>, SurfaceId)> {
        self.entries@.map_values(|e: (String, SurfaceId)| (e.0@, e.1))
    }
}

impl RouteTable {
    /// No name stands twice.
    pub open spec fn wf(&self) -> bool {
        routes_wf(self@)
    }

    pub fn new() -> (table: RouteTable)
        ensures
            table.wf(),
            table@ == Seq::<(Seq<char>, SurfaceId)>::empty(),
    {
        let table = RouteTable { entries: Vec::new() };
        assert(table@ =~= Seq::<(Seq<char>, SurfaceId)>::empty());
        table
    }

    fn index(&self, key: &str) -> (place: Option<usize>)
        ensures
            match place {
                Some(i) => route_index(self@, key@) == Some(i as int) && i < self.entries@.len(),
                None => route_index(self@, key@) is None,
            },
    {
        proof {
            lemma_route_index(self@, key@);
        }
        let mut i: usize = 0;
        while i < self.entries.len()
            invariant
                i <= self.entries.len(),
                forall|j: int| 0 <= j < i ==> (#[trigger] self@[j]).0 != key@,
                match route_index(self@, key@) {
                    Some(k) => 0 <= k < self@.len() && self@[k].0 == key@ && forall|j: int|
                        0 <= j < k ==> (#[trigger] self@[j]).0 != key@,
                    None => forall|j: int| 0 <= j < self@.len() ==> (#[trigger] self@[j]).0 != key@,
                },
            decreases self.entries.len() - i,
        {
            if same_text(self.entries[i].0.as_str(), key) {
                assert(self@[i as int].0 == key@);
                return Some(i);
            }
            assert(self@[i as int].0 != key@);
            i = i + 1;
        }
        None
    }

    /// The surface of `key`.
    pub fn get(&self, key: &str) -> (surface: Option<SurfaceId>)
        ensures
            surface == route_to(self@, key@),
    {
        match self.index(key) {
            Some(i) => Some(self.entries[i].1),
            None => None,
        }
    }

    /// Lets `key` lead to `surface`.
    pub fn insert(&mut self, key: String, surface: SurfaceId)
        requires
            old(self).wf(),
        ensures
            final(self).wf(),
            final(self)@ == routed(old(self)@, key@, surface),
    {
        let ghost want = routed(old(self)@, key@, surface);
        proof {
            lemma_routes_wf(old(self)@, key@, surface);
        }
        match self.index(key.as_str()) {
            Some(i) => {
                self.entries[i] = (key, surface);
            },
            None => {
                self.entries.push((key, surface));
            },
        }
        assert(self@ =~= want);
    }

    /// Takes `key` out.
    pub fn remove(&mut self, key: &str)
        requires
            old(self).wf(),
        ensures
            final(self).wf(),
            final(self)@ == unrouted(old(self)@, key@),
    {
        proof {
            lemma_routes_wf(old(self)@, key@, 0);
        }
        if let Some(i) = self.index(key) {
            self.entries.remove(i);
        }
        assert(self@ =~= unrouted(old(self)@, key@));
    }

    /// Takes everything out, and says where the routes led.
    pub fn drain(&mut self) -> (surfaces: Vec<SurfaceId>)
        ensures
            final(self).wf(),
            final(self)@ == Seq::<(Seq<char>, SurfaceId)>::empty(),
            surfaces@ == old(self)@.map_values(|e: (Seq<char>, SurfaceId)| e.1),
    {
        let mut surfaces: Vec<SurfaceId> = Vec::new();
        let mut i: usize = 0;
        while i < self.entries.len()
            invariant
                i <= self.entries.len(),
                surfaces@.len() == i,
                forall|j: int| 0 <= j < i ==> #[trigger] surfaces@[j] == self@[j].1,
            decreases self.entries.len() - i,
        {
            surfaces.push(self.entries[i].1);
            i = i + 1;
        }
        assert(surfaces@ =~= self@.map_values(|e: (Seq<char>, SurfaceId)| e.1));
        self.entries.clear();
        assert(self@ =~= Seq::<(Seq<char>, SurfaceId)>::empty());
        surfaces
    }
}

} // verus!
