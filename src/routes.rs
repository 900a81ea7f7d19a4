//! The routing table: responses keyed by method and path, one per key.
use vstd::prelude::*;
use crate::json::str_eq;
use crate::response::{ResponseSpec, ResponseType};

verus! {

/// A route key: the method and the exact path.
pub type RouteKey = (Seq<char>, Seq<char>);

/// One entry of the routing table.
pub struct Route {
    pub method: String,
    pub web_path: String,
    pub response: ResponseType,
}

impl Route {
    pub open spec fn key(&self) -> RouteKey {
        (self.method@, self.web_path@)
    }
}

/// No two entries share a key.
pub open spec fn keys_unique(s: Seq<Route>) -> bool {
    forall|i: int, j: int| 0 <= i < s.len() && 0 <= j < s.len() && i != j ==> s[i].key() != s[j].key()
}

pub open spec fn has_key(s: Seq<Route>, k: RouteKey) -> bool {
    exists|i: int| 0 <= i < s.len() && s[i].key() == k
}

/// The table as a map from keys to responses.
pub open spec fn route_map(s: Seq<Route>) -> Map<RouteKey, ResponseSpec> {
    Map::new(
        |k: RouteKey| has_key(s, k),
        |k: RouteKey| s[choose|i: int| 0 <= i < s.len() && s[i].key() == k].response@,
    )
}

/// The index of the entry with the given key, if there is one.
pub fn find_route(routes: &Vec<Route>, method: &str, path: &str) -> (r: Option<usize>)
    ensures
        match r {
            Some(i) => i < routes@.len() && routes@[i as int].key() == (method@, path@),
            None => !has_key(routes@, (method@, path@)),
        },
{
    let mut i: usize = 0;
    while i < routes.len()
        invariant
            i <= routes@.len(),
            forall|j: int| 0 <= j < i ==> routes@[j].key() != (method@, path@),
        decreases routes.len() - i,
    {
        if str_eq(routes[i].method.as_str(), method) && str_eq(routes[i].web_path.as_str(), path) {
            return Some(i);
        }
        i = i + 1;
    }
    None
}

/// The response of the entry at `i` is what the map holds for its key.
pub proof fn lemma_route_map_at(s: Seq<Route>, i: int)
    requires
        keys_unique(s),
        0 <= i < s.len(),
    ensures
        route_map(s).contains_key(s[i].key()),
        route_map(s)[s[i].key()] == s[i].response@,
{
    let k = s[i].key();
    assert(has_key(s, k));
    let j = choose|j: int| 0 <= j < s.len() && s[j].key() == k;
    assert(j == i);
}

/// Adds a route; an entry with the same key is replaced.
pub fn insert_route(routes: &mut Vec<Route>, route: Route)
    requires
        keys_unique(old(routes)@),
    ensures
        keys_unique(final(routes)@),
        route_map(final(routes)@) == route_map(old(routes)@).insert(route.key(), route.response@),
{
    let ghost k = route.key();
    let ghost v = route.response@;
    let ghost s0 = routes@;
    match find_route(routes, route.method.as_str(), route.web_path.as_str()) {
        Some(i) => {
            routes.set(i, route);
            let ghost s1 = routes@;
            assert(keys_unique(s1));
            assert forall|k2: RouteKey| #[trigger] has_key(s1, k2) == has_key(s0, k2) by {
                if has_key(s0, k2) {
                    let j = choose|j: int| 0 <= j < s0.len() && s0[j].key() == k2;
                    assert(s1[j].key() == k2);
                }
                if has_key(s1, k2) {
                    let j = choose|j: int| 0 <= j < s1.len() && s1[j].key() == k2;
                    assert(s0[j].key() == k2);
                }
            }
            assert forall|k2: RouteKey| #[trigger] has_key(s1, k2) && k2 != k implies route_map(s1)[k2] == route_map(s0)[k2] by {
                let j = choose|j: int| 0 <= j < s1.len() && s1[j].key() == k2;
                lemma_route_map_at(s1, j);
                lemma_route_map_at(s0, j);
            }
            proof {
                lemma_route_map_at(s1, i as int);
            }
            assert(route_map(s1) =~= route_map(s0).insert(k, v));
        },
        None => {
            routes.push(route);
            let ghost s1 = routes@;
            assert(keys_unique(s1));
            assert forall|k2: RouteKey| #[trigger] has_key(s1, k2) == (has_key(s0, k2) || k2 == k) by {
                if has_key(s0, k2) {
                    let j = choose|j: int| 0 <= j < s0.len() && s0[j].key() == k2;
                    assert(s1[j].key() == k2);
                }
                if k2 == k {
                    assert(s1[s0.len() as int].key() == k2);
                }
            }
            assert forall|k2: RouteKey| #[trigger] has_key(s0, k2) implies route_map(s1)[k2] == route_map(s0)[k2] by {
                let j = choose|j: int| 0 <= j < s0.len() && s0[j].key() == k2;
                assert(s1[j] == s0[j]);
                lemma_route_map_at(s1, j);
                lemma_route_map_at(s0, j);
            }
            proof {
                lemma_route_map_at(s1, s0.len() as int);
            }
            assert(route_map(s1) =~= route_map(s0).insert(k, v));
        },
    }
}

} // verus!
