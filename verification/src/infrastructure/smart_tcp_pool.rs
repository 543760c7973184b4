//! The sticky pool: every owner stays on the backend that it was given at
//! its first request, and new owners are dealt out over the backends in
//! turn. The pool keeps no idle connections: each request is served by a
//! new connection to the owner's backend. An assignment is never taken
//! back, so the pool grows by one entry for each owner that it has seen.

use crate::domain::backend_conn::{Backend, ConnString};
use crate::domain::tcp_conn_pool::SmartTcpConnectionPool;
use crate::infrastructure::fast_tcp_pool::backends_of;
use std::collections::HashMap;
use std::time::Instant;
use vstd::prelude::*;

verus! {

broadcast use vstd::std_specs::hash::group_hash_axioms;

/// A point in time as `std::time::Instant` measures it. The pool stores
/// such values and never looks into them.
#[verifier::external_type_specification]
#[verifier::external_body]
pub struct ExInstant(std::time::Instant);

/// Reads the clock with `std::time::Instant::now`. Nothing is claimed of the
/// value.
#[verifier::external_body]
fn now() -> Instant {
    Instant::now()
}

/// The place of the first backend in `backends` that goes by `id`.
pub open spec fn position_of(backends: Seq<Backend>, id: u128) -> Option<int>
    decreases backends.len(),
{
    if backends.len() == 0 {
        None
    } else if backends[0].id == id {
        Some(0)
    } else {
        match position_of(backends.drop_first(), id) {
            Some(at) => Some(at + 1),
            None => None,
        }
    }
}

/// `position_of` finds the first backend that goes by `id`, and finds none
/// only if there is none.
pub proof fn lemma_position_of(backends: Seq<Backend>, id: u128, at: int)
    requires
        0 <= at <= backends.len(),
        forall|i: int| 0 <= i < at ==> backends[i].id != id,
        at < backends.len() ==> backends[at].id == id,
    ensures
        position_of(backends, id) == if at < backends.len() {
            Some(at)
        } else {
            None
        },
    decreases backends.len(),
{
    if at > 0 {
        lemma_position_of(backends.drop_first(), id, at - 1);
    }
}

/// The state of a sticky pool.
pub struct Sticky {
    pub backends: Seq<Backend>,
    /// The backend of each owner that has been given one, by identifier.
    pub assigned: Map<u128, u128>,
    /// The owners for which the time of their assignment is on record.
    pub seen: Set<u128>,
    /// The place of the backend that the next new owner is given.
    pub cursor: usize,
}

impl Sticky {
    /// The backends can be counted, the cursor points into them, the same
    /// owners are assigned and on record, and every owner is assigned to a
    /// backend of the pool.
    pub open spec fn wf(self) -> bool {
        &&& self.backends.len() <= usize::MAX
        &&& self.backends.len() == 0 ==> self.cursor == 0
        &&& self.backends.len() > 0 ==> self.cursor < self.backends.len()
        &&& self.assigned.dom().finite()
        &&& self.assigned.dom() == self.seen
        &&& forall|owner: u128| #[trigger]
            self.assigned.contains_key(owner) ==> position_of(
                self.backends,
                self.assigned[owner],
            ) is Some
    }

    /// A pool in which no owner has a backend yet.
    pub open spec fn fresh(backends: Seq<Backend>) -> Self {
        Sticky { backends, assigned: Map::empty(), seen: Set::empty(), cursor: 0 }
    }

    /// The cursor after one step: it moves on by one and goes back to the
    /// first backend after the last.
    pub open spec fn next_cursor(self) -> usize {
        if self.cursor + 1 < self.backends.len() {
            (self.cursor + 1) as usize
        } else {
            0
        }
    }

    /// The pool after a request of `owner`. An owner that has a backend
    /// keeps it, and the pool stays as it is. A new owner is given the
    /// backend under the cursor, the cursor moves on, and the owner is put
    /// on record.
    pub open spec fn assign(self, owner: u128) -> Self {
        if self.assigned.contains_key(owner) {
            self
        } else {
            Sticky {
                assigned: self.assigned.insert(owner, self.backends[self.cursor as int].id),
                seen: self.seen.insert(owner),
                cursor: self.next_cursor(),
                ..self
            }
        }
    }

    /// The pool after the requests of `owners`, one after the other.
    pub open spec fn assign_all(self, owners: Seq<u128>) -> Self
        decreases owners.len(),
    {
        if owners.len() == 0 {
            self
        } else {
            self.assign_all(owners.drop_last()).assign(owners.last())
        }
    }

    /// The place of the backend that serves `owner`, if `owner` has one.
    pub open spec fn backend_of(self, owner: u128) -> Option<int> {
        if self.assigned.contains_key(owner) {
            position_of(self.backends, self.assigned[owner])
        } else {
            None
        }
    }

    /// A request keeps the pool well formed, and leaves the pool with a
    /// backend for the owner.
    pub proof fn law_assign_keeps_wf(self, owner: u128)
        requires
            self.wf(),
            self.backends.len() > 0,
        ensures
            self.assign(owner).wf(),
            self.assign(owner).backends == self.backends,
            self.assign(owner).backend_of(owner) is Some,
    {
        if !self.assigned.contains_key(owner) {
            let after = self.assign(owner);
            let id = self.backends[self.cursor as int].id;
            lemma_first_match(self.backends, id, self.cursor as int);
            assert forall|other: u128| #[trigger]
                after.assigned.contains_key(other) implies position_of(
                after.backends,
                after.assigned[other],
            ) is Some by {
                if other != owner {
                    assert(self.assigned.contains_key(other));
                }
            }
        }
    }

    /// New owners are dealt out in turn: a new owner is given the backend
    /// under the cursor, and the cursor moves on by one, back to the first
    /// backend after the last.
    pub proof fn law_new_owners_rotate(self, owner: u128)
        requires
            self.wf(),
            self.backends.len() > 0,
            !self.assigned.contains_key(owner),
        ensures
            self.assign(owner).assigned[owner] == self.backends[self.cursor as int].id,
            self.assign(owner).cursor == (self.cursor + 1) % (self.backends.len() as int),
    {
        let n = self.backends.len() as int;
        let c = self.cursor as int;
        assert((c + 1) % n == if c + 1 < n {
            c + 1
        } else {
            0
        }) by (nonlinear_arith)
            requires
                0 <= c < n,
        ;
    }

    /// An owner keeps its backend through the request of any owner.
    pub proof fn law_assignment_is_kept(self, owner: u128, other: u128)
        requires
            self.assigned.contains_key(owner),
        ensures
            self.assign(other).assigned.contains_key(owner),
            self.assign(other).assigned[owner] == self.assigned[owner],
            self.assign(other).backend_of(owner) == self.backend_of(owner),
    {
    }

    /// Stability: once an owner has been served, every later request of
    /// that owner resolves to the same backend, whichever owners are served
    /// in between and however many requests there are.
    pub proof fn law_sticky(self, owner: u128, later: Seq<u128>)
        requires
            self.wf(),
            self.backends.len() > 0,
        ensures
            self.assign(owner).assign_all(later).assign(owner).backend_of(owner) == self.assign(
                owner,
            ).backend_of(owner),
            self.assign(owner).backend_of(owner) is Some,
    {
        let first = self.assign(owner);
        self.law_assign_keeps_wf(owner);
        first.lemma_kept_through(owner, later);
    }

    /// An owner keeps its backend through the requests of `later`.
    proof fn lemma_kept_through(self, owner: u128, later: Seq<u128>)
        requires
            self.assigned.contains_key(owner),
        ensures
            self.assign_all(later).backends == self.backends,
            self.assign_all(later).assigned.contains_key(owner),
            self.assign_all(later).assigned[owner] == self.assigned[owner],
        decreases later.len(),
    {
        if later.len() > 0 {
            self.lemma_kept_through(owner, later.drop_last());
        }
    }
}

/// A backend that goes by `id` has a first place in the list.
proof fn lemma_first_match(backends: Seq<Backend>, id: u128, at: int)
    requires
        0 <= at < backends.len(),
        backends[at].id == id,
    ensures
        position_of(backends, id) is Some,
    decreases backends.len(),
{
    if backends[0].id != id {
        lemma_first_match(backends.drop_first(), id, at - 1);
    }
}

/// The sticky pool.
#[derive(Debug)]
pub struct SmartTcpConnPool {
    available_backends: Vec<ConnString>,
    user_session_map: HashMap<u128, u128>,
    user_last_connection_time: HashMap<u128, Instant>,
    backend_selector: usize,
}

impl View for SmartTcpConnPool {
    type V = Sticky;

    closed spec fn view(&self) -> Sticky {
        Sticky {
            backends: backends_of(self.available_backends@),
            assigned: self.user_session_map@,
            seen: self.user_last_connection_time@.dom(),
            cursor: self.backend_selector,
        }
    }
}

impl SmartTcpConnPool {
    #[verifier::type_invariant]
    spec fn well_formed(&self) -> bool {
        self@.wf()
    }

    /// A pool over `backends_hosts` in which no owner has a backend yet.
    pub fn new(backends_hosts: Vec<ConnString>) -> (pool: Self)
        ensures
            pool@ == Sticky::fresh(backends_of(backends_hosts@)),
            pool@.wf(),
    {
        assert(backends_hosts@.len() == backends_hosts.len());
        let pool = SmartTcpConnPool {
            available_backends: backends_hosts,
            user_session_map: HashMap::new(),
            user_last_connection_time: HashMap::new(),
            backend_selector: 0,
        };
        pool
    }

    /// The backends, in the order in which new owners are given them.
    pub fn backends(&self) -> (backends: &Vec<ConnString>)
        ensures
            backends_of(backends@) == self@.backends,
    {
        &self.available_backends
    }

    /// The place of the backend that the next new owner is given.
    pub fn backend_selector(&self) -> (cursor: usize)
        ensures
            cursor == self@.cursor,
    {
        self.backend_selector
    }

    /// The number of owners that have a backend.
    pub fn assigned_count(&self) -> (count: usize)
        ensures
            count == self@.assigned.len(),
    {
        self.user_session_map.len()
    }

    /// The number of owners whose time of assignment is on record.
    pub fn last_seen_count(&self) -> (count: usize)
        ensures
            count == self@.seen.len(),
    {
        self.user_last_connection_time.len()
    }

    /// The identifier of the backend that `user_id` has been given, if any.
    pub fn assigned_backend(&self, user_id: u128) -> (id: Option<u128>)
        ensures
            id == if self@.assigned.contains_key(user_id) {
                Some(self@.assigned[user_id])
            } else {
                None
            },
    {
        match self.user_session_map.get(&user_id) {
            Some(id) => Some(*id),
            None => None,
        }
    }

    /// Moves the pool out of `self` and leaves a pool without backends in its
    /// place, so that the parts can be worked on one by one.
    fn take(&mut self) -> (taken: SmartTcpConnPool)
        ensures
            taken == *old(self),
    {
        let mut taken = SmartTcpConnPool::new(Vec::new());
        std::mem::swap(self, &mut taken);
        taken
    }

    /// The identifier of the backend of `user_id`. An owner without a
    /// backend is given the next one in turn, and is put on record with the
    /// time of the assignment.
    fn get_or_assign_backend(&mut self, user_id: u128) -> (backend_uuid: u128)
        requires
            old(self)@.backends.len() > 0,
        ensures
            final(self)@ == old(self)@.assign(user_id),
            final(self)@.assigned.contains_key(user_id),
            backend_uuid == final(self)@.assigned[user_id],
    {
        proof {
            use_type_invariant(&*self);
        }
        match self.assigned_backend(user_id) {
            Some(backend_uuid) => backend_uuid,
            None => {
                let backend_uuid = self.next_backend();
                let SmartTcpConnPool {
                    available_backends,
                    mut user_session_map,
                    mut user_last_connection_time,
                    backend_selector,
                } = self.take();
                user_session_map.insert(user_id, backend_uuid);
                user_last_connection_time.insert(user_id, now());
                proof {
                    old(self)@.law_assign_keeps_wf(user_id);
                }
                *self = SmartTcpConnPool {
                    available_backends,
                    user_session_map,
                    user_last_connection_time,
                    backend_selector,
                };
                backend_uuid
            },
        }
    }

    /// The identifier of the backend under the cursor. The cursor moves on
    /// by one, and back to the first backend after the last.
    fn next_backend(&mut self) -> (backend_uuid: u128)
        requires
            old(self)@.backends.len() > 0,
        ensures
            backend_uuid == old(self)@.backends[old(self)@.cursor as int].id,
            final(self)@ == (Sticky { cursor: old(self)@.next_cursor(), ..old(self)@ }),
    {
        proof {
            use_type_invariant(&*self);
        }
        let current: usize = self.backend_selector;
        if current < self.available_backends.len() - 1 {
            self.backend_selector = current + 1;
        } else {
            self.backend_selector = 0;
        }
        self.available_backends[current].get_uuid()
    }
}

impl SmartTcpConnectionPool for SmartTcpConnPool {
    open spec fn has_backend(&self) -> bool {
        self@.backends.len() > 0
    }

    /// The backend to dial for `user_id`: the one that the owner was given
    /// at its first request, which is this one if it has none yet. The
    /// assignment is made before anything is dialled and stays whether or
    /// not the backend can be reached.
    fn get_connection(&mut self, user_id: u128) -> (backend: Option<usize>)
        ensures
            final(self)@ == old(self)@.assign(user_id),
            final(self)@.wf(),
            backend is Some,
            final(self)@.backend_of(user_id) == Some(backend.unwrap() as int),
    {
        let backend_uuid = self.get_or_assign_backend(user_id);
        proof {
            use_type_invariant(&*self);
        }
        let mut i: usize = 0;
        while i < self.available_backends.len()
            invariant
                i <= self.available_backends@.len(),
                self@.backends.len() == self.available_backends@.len(),
                self@ == old(self)@.assign(user_id),
                self@.wf(),
                self@.assigned.contains_key(user_id),
                backend_uuid == self@.assigned[user_id],
                forall|k: int| 0 <= k < i ==> self@.backends[k].id != backend_uuid,
            decreases self.available_backends@.len() - i,
        {
            if self.available_backends[i].get_uuid() == backend_uuid {
                proof {
                    lemma_position_of(self@.backends, backend_uuid, i as int);
                }
                return Some(i);
            }
            i += 1;
        }
        proof {
            lemma_position_of(self@.backends, backend_uuid, i as int);
        }
        None
    }
}

} // verus!
