//! The routes of a balancer: which backend stands behind each inbound
//! address.

use crate::text::{decimal, push_decimal};
use vstd::prelude::*;
use vstd::string::StringExecFns;

verus! {

/// The routes that a list of entries holds: each entry maps its first part
/// to its second, and a later entry wins over an earlier one.
pub open spec fn routes_of(entries: Seq<(String, String)>) -> Map<Seq<char>, Seq<char>>
    decreases entries.len(),
{
    if entries.len() == 0 {
        Map::empty()
    } else {
        routes_of(entries.drop_last()).insert(entries.last().0@, entries.last().1@)
    }
}

/// No inbound address stands twice in `entries`.
pub open spec fn distinct_keys(entries: Seq<(String, String)>) -> bool {
    forall|i: int, j: int|
        0 <= i < j < entries.len() ==> (#[trigger] entries[i]).0@ != (#[trigger] entries[j]).0@
}

/// The inbound address `incoming:port`, the port in decimal.
pub open spec fn port_key(incoming: Seq<char>, port: int) -> Seq<char> {
    incoming + seq![':'] + decimal(port as nat)
}

/// `key` is `incoming:port` for a port from `first` to `last`.
pub open spec fn in_port_range(incoming: Seq<char>, first: int, last: int, key: Seq<char>) -> bool {
    exists|port: int| first <= port <= last && #[trigger] port_key(incoming, port) == key
}

/// The routes from `incoming:port` to `backend`, for every port from `first`
/// to `last`.
pub open spec fn range_routes(
    incoming: Seq<char>,
    backend: Seq<char>,
    first: int,
    last: int,
) -> Map<Seq<char>, Seq<char>> {
    Map::new(|key: Seq<char>| in_port_range(incoming, first, last, key), |key: Seq<char>| backend)
}

/// `routes` holds at least one route.
pub open spec fn has_route(routes: Map<Seq<char>, Seq<char>>) -> bool {
    exists|incoming: Seq<char>| routes.contains_key(incoming)
}

/// The routes of `entries` are those of its entries, and no others.
proof fn lemma_routes_of(entries: Seq<(String, String)>)
    ensures
        forall|i: int|
            0 <= i < entries.len() ==> routes_of(entries).contains_key(
                (#[trigger] entries[i]).0@,
            ),
        forall|key: Seq<char>|
            routes_of(entries).contains_key(key) ==> exists|i: int|
                0 <= i < entries.len() && (#[trigger] entries[i]).0@ == key,
        distinct_keys(entries) ==> forall|i: int|
            0 <= i < entries.len() ==> routes_of(entries)[(#[trigger] entries[i]).0@]
                == entries[i].1@,
    decreases entries.len(),
{
    if entries.len() > 0 {
        let front = entries.drop_last();
        lemma_routes_of(front);
        assert forall|i: int| 0 <= i < entries.len() implies routes_of(entries).contains_key(
            (#[trigger] entries[i]).0@,
        ) by {
            if i < front.len() {
                assert(front[i] == entries[i]);
            }
        }
        assert forall|key: Seq<char>| routes_of(entries).contains_key(key) implies exists|i: int|
            0 <= i < entries.len() && (#[trigger] entries[i]).0@ == key by {
            if key != entries.last().0@ {
                let i = choose|i: int| 0 <= i < front.len() && (#[trigger] front[i]).0@ == key;
                assert(entries[i].0@ == key);
            }
        }
        if distinct_keys(entries) {
            lemma_front_is_distinct(entries);
        }
    }
}

/// Without its last entry, a list of distinct keys is still one.
proof fn lemma_front_is_distinct(entries: Seq<(String, String)>)
    requires
        distinct_keys(entries),
        entries.len() > 0,
    ensures
        distinct_keys(entries.drop_last()),
{
    let front = entries.drop_last();
    assert forall|i: int, j: int| 0 <= i < j < front.len() implies (#[trigger] front[i]).0@ != (
    #[trigger] front[j]).0@ by {
        assert(front[i] == entries[i] && front[j] == entries[j]);
    }
}

/// Replacing the entry of a key by one with the same key sets the route of
/// that key and no other.
proof fn lemma_routes_of_update(entries: Seq<(String, String)>, at: int, entry: (String, String))
    requires
        distinct_keys(entries),
        0 <= at < entries.len(),
        entries[at].0@ == entry.0@,
    ensures
        distinct_keys(entries.update(at, entry)),
        routes_of(entries.update(at, entry)) == routes_of(entries).insert(entry.0@, entry.1@),
    decreases entries.len(),
{
    let updated = entries.update(at, entry);
    assert forall|i: int, j: int| 0 <= i < j < updated.len() implies (#[trigger] updated[i]).0@ != (
    #[trigger] updated[j]).0@ by {
        assert(updated[i].0@ == entries[i].0@ && updated[j].0@ == entries[j].0@);
    }
    if at == entries.len() - 1 {
        assert(updated.drop_last() =~= entries.drop_last());
    } else {
        let front = entries.drop_last();
        lemma_front_is_distinct(entries);
        lemma_routes_of_update(front, at, entry);
        assert(updated.drop_last() =~= front.update(at, entry));
    }
}

/// The routes of a balancer. Each inbound address has at most one backend;
/// a route that is set again replaces the one that was there.
#[derive(Debug)]
pub struct RouterMap {
    map: Vec<(String, String)>,
}

impl View for RouterMap {
    type V = Map<Seq<char>, Seq<char>>;

    closed spec fn view(&self) -> Map<Seq<char>, Seq<char>> {
        routes_of(self.map@)
    }
}

impl Clone for RouterMap {
    fn clone(&self) -> (copy: RouterMap)
        ensures
            copy@ == self@,
    {
        proof {
            use_type_invariant(self);
        }
        let mut map: Vec<(String, String)> = Vec::new();
        let mut i: usize = 0;
        while i < self.map.len()
            invariant
                i <= self.map@.len(),
                map@.len() == i,
                forall|k: int|
                    0 <= k < i ==> (#[trigger] map@[k]).0@ == self.map@[k].0@ && map@[k].1@
                        == self.map@[k].1@,
            decreases self.map@.len() - i,
        {
            let incoming = self.map[i].0.clone();
            let backend = self.map[i].1.clone();
            map.push((incoming, backend));
            i += 1;
        }
        proof {
            lemma_same_routes(map@, self.map@);
        }
        RouterMap { map }
    }
}

/// Two lists of entries that read alike hold the same routes.
proof fn lemma_same_routes(left: Seq<(String, String)>, right: Seq<(String, String)>)
    requires
        left.len() == right.len(),
        forall|k: int|
            0 <= k < left.len() ==> (#[trigger] left[k]).0@ == right[k].0@ && left[k].1@
                == right[k].1@,
    ensures
        routes_of(left) == routes_of(right),
        distinct_keys(right) ==> distinct_keys(left),
    decreases left.len(),
{
    if left.len() > 0 {
        lemma_same_routes(left.drop_last(), right.drop_last());
    }
    if distinct_keys(right) {
        assert forall|i: int, j: int| 0 <= i < j < left.len() implies (#[trigger] left[i]).0@ != (
        #[trigger] left[j]).0@ by {
            assert(right[i].0@ != right[j].0@);
        }
    }
}

impl RouterMap {
    #[verifier::type_invariant]
    spec fn well_formed(&self) -> bool {
        distinct_keys(self.map@)
    }

    /// A map without routes.
    pub fn new() -> (routes: Self)
        ensures
            routes@ == Map::<Seq<char>, Seq<char>>::empty(),
    {
        RouterMap { map: Vec::new() }
    }

    /// Whether there is no route at all.
    pub fn is_empty(&self) -> (empty: bool)
        ensures
            empty == !has_route(self@),
    {
        proof {
            lemma_routes_of(self.map@);
            if self.map@.len() > 0 {
                assert(self@.contains_key(self.map@[0].0@));
            }
        }
        self.map.len() == 0
    }

    /// The backend behind `incoming`, if there is a route for it.
    pub fn get(&self, incoming: &str) -> (backend: Option<String>)
        ensures
            match backend {
                Some(address) => self@.contains_key(incoming@) && address@ == self@[incoming@],
                None => !self@.contains_key(incoming@),
            },
    {
        proof {
            use_type_invariant(self);
            lemma_routes_of(self.map@);
        }
        let key = String::from_str(incoming);
        let mut i: usize = 0;
        while i < self.map.len()
            invariant
                i <= self.map@.len(),
                key@ == incoming@,
                forall|k: int| 0 <= k < i ==> (#[trigger] self.map@[k]).0@ != incoming@,
                distinct_keys(self.map@),
                forall|k: int|
                    0 <= k < self.map@.len() ==> routes_of(self.map@)[(#[trigger] self.map@[k]).0@]
                        == self.map@[k].1@,
                forall|k: int|
                    0 <= k < self.map@.len() ==> routes_of(self.map@).contains_key(
                        (#[trigger] self.map@[k]).0@,
                    ),
            decreases self.map@.len() - i,
        {
            if self.map[i].0 == key {
                return Some(self.map[i].1.clone());
            }
            i += 1;
        }
        None
    }

    /// Routes `incoming` to `backend`. A route that `incoming` had before is
    /// replaced.
    pub fn map_route(&mut self, incoming: &str, backend: &str)
        ensures
            final(self)@ == old(self)@.insert(incoming@, backend@),
    {
        proof {
            use_type_invariant(&*self);
            lemma_routes_of(self.map@);
        }
        let entry = (String::from_str(incoming), String::from_str(backend));
        let mut entries: Vec<(String, String)> = Vec::new();
        std::mem::swap(&mut self.map, &mut entries);
        let mut i: usize = 0;
        while i < entries.len()
            invariant
                i <= entries@.len(),
                entries@ == old(self).map@,
                distinct_keys(entries@),
                entry.0@ == incoming@,
                entry.1@ == backend@,
                forall|k: int| 0 <= k < i ==> (#[trigger] entries@[k]).0@ != incoming@,
            decreases entries@.len() - i,
        {
            if entries[i].0 == entry.0 {
                proof {
                    lemma_routes_of_update(entries@, i as int, entry);
                }
                entries.set(i, entry);
                self.map = entries;
                return ;
            }
            i += 1;
        }
        entries.push(entry);
        assert(entries@.drop_last() =~= old(self).map@);
        assert forall|a: int, b: int| 0 <= a < b < entries@.len() implies (
        #[trigger] entries@[a]).0@ != (#[trigger] entries@[b]).0@ by {
            assert(entries@[a] == old(self).map@[a]);
        }
        self.map = entries;
    }

    /// Routes `incoming:port` to `backend_host_only`, for every port from
    /// `port_start` to `port_end`, both included. Routes that these addresses
    /// had before are replaced; with `port_start` above `port_end` nothing
    /// changes.
    pub fn map_route_range(
        &mut self,
        incoming: &str,
        backend_host_only: &str,
        port_start: usize,
        port_end: usize,
    )
        ensures
            final(self)@ == old(self)@.union_prefer_right(
                range_routes(incoming@, backend_host_only@, port_start as int, port_end as int),
            ),
    {
        if port_start > port_end {
            assert(self@ =~= self@.union_prefer_right(
                range_routes(incoming@, backend_host_only@, port_start as int, port_end as int),
            ));
            return ;
        }
        let mut port: usize = port_start;
        assert(self@ =~= self@.union_prefer_right(
            range_routes(incoming@, backend_host_only@, port_start as int, port_start - 1),
        ));
        loop
            invariant_except_break
                port_start <= port <= port_end,
                self@ == old(self)@.union_prefer_right(
                    range_routes(incoming@, backend_host_only@, port_start as int, port - 1),
                ),
            ensures
                self@ == old(self)@.union_prefer_right(
                    range_routes(incoming@, backend_host_only@, port_start as int, port_end as int),
                ),
            decreases port_end - port,
        {
            let mut key = String::from_str(incoming);
            key.append(":");
            push_decimal(&mut key, port as u64);
            proof {
                reveal_strlit(":");
                assert(key@ =~= port_key(incoming@, port as int));
                let before = range_routes(
                    incoming@,
                    backend_host_only@,
                    port_start as int,
                    port - 1,
                );
                let after = range_routes(
                    incoming@,
                    backend_host_only@,
                    port_start as int,
                    port as int,
                );
                assert forall|k: Seq<char>| after.contains_key(k) <==> (before.contains_key(k)
                    || k == key@) by {
                    if before.contains_key(k) {
                        let p = choose|p: int|
                            port_start <= p <= port - 1 && #[trigger] port_key(incoming@, p) == k;
                        assert(port_start <= p <= port && port_key(incoming@, p) == k);
                    }
                    if k == key@ {
                        assert(port_key(incoming@, port as int) == k);
                    }
                }
                assert(old(self)@.union_prefer_right(before).insert(key@, backend_host_only@)
                    =~= old(self)@.union_prefer_right(after));
            }
            self.map_route(key.as_str(), backend_host_only);
            if port == port_end {
                break ;
            }
            port += 1;
        }
    }
}

} // verus!
