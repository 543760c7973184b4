//! The round-robin pool: requests are dealt out over the backends in turn,
//! and each backend has a bounded queue of idle connections that are reused
//! oldest first.

use crate::domain::backend_conn::{Backend, ConnString};
use crate::domain::tcp_conn_pool::{Acquired, FastTcpPool};
use std::collections::VecDeque;
use vstd::prelude::*;

verus! {

/// The backends that a list of endpoints stands for.
pub open spec fn backends_of(endpoints: Seq<ConnString>) -> Seq<Backend> {
    Seq::new(endpoints.len(), |i: int| endpoints[i]@)
}

/// The first `cap` items of `queue`, or all of them if there are fewer.
pub open spec fn first_up_to<C>(queue: Seq<C>, cap: int) -> Seq<C> {
    if queue.len() <= cap {
        queue
    } else {
        queue.subrange(0, cap)
    }
}

/// The number of idle connections in all the queues of `idle` together.
pub open spec fn idle_total<C>(idle: Seq<Seq<C>>) -> nat
    decreases idle.len(),
{
    if idle.len() == 0 {
        0
    } else {
        idle_total(idle.drop_last()) + idle.last().len()
    }
}

/// Replacing one queue changes the total by the difference in length.
proof fn lemma_idle_total_update<C>(idle: Seq<Seq<C>>, b: int, queue: Seq<C>)
    requires
        0 <= b < idle.len(),
    ensures
        idle_total(idle.update(b, queue)) == idle_total(idle) - idle[b].len() + queue.len(),
    decreases idle.len(),
{
    let updated = idle.update(b, queue);
    if b == idle.len() - 1 {
        assert(updated.drop_last() =~= idle.drop_last());
    } else {
        lemma_idle_total_update(idle.drop_last(), b, queue);
        assert(updated.drop_last() =~= idle.drop_last().update(b, queue));
    }
}

/// Queues of at most `cap` connections each hold at most `cap` times their
/// number.
proof fn lemma_idle_total_bound<C>(idle: Seq<Seq<C>>, cap: nat)
    requires
        forall|b: int| 0 <= b < idle.len() ==> (#[trigger] idle[b]).len() <= cap,
    ensures
        idle_total(idle) <= idle.len() * cap,
    decreases idle.len(),
{
    if idle.len() > 0 {
        let front = idle.drop_last();
        assert forall|b: int| 0 <= b < front.len() implies (#[trigger] front[b]).len() <= cap by {
            assert(front[b] == idle[b]);
        }
        lemma_idle_total_bound(front, cap);
        assert(front.len() * cap + cap == idle.len() * cap) by (nonlinear_arith)
            requires
                front.len() + 1 == idle.len(),
        ;
    }
}

/// The state of a round-robin pool over connections of type `C`.
pub struct RoundRobin<C> {
    pub backends: Seq<Backend>,
    /// The number of acquisitions so far, as far as the counter can count.
    pub counter: usize,
    /// The idle connections of each backend, the oldest first.
    pub idle: Seq<Seq<C>>,
    /// The most idle connections that are kept for one backend.
    pub cap: usize,
}

impl<C> RoundRobin<C> {
    /// Each backend has a queue, and no queue is longer than the cap.
    pub open spec fn wf(self) -> bool {
        &&& self.idle.len() == self.backends.len()
        &&& forall|b: int| 0 <= b < self.idle.len() ==> (#[trigger] self.idle[b]).len() <= self.cap
    }

    /// A pool that has served nothing yet.
    pub open spec fn fresh(backends: Seq<Backend>, cap: usize) -> Self {
        RoundRobin {
            backends,
            counter: 0,
            idle: Seq::new(backends.len(), |b: int| Seq::<C>::empty()),
            cap,
        }
    }

    /// The backend that the next acquisition goes to.
    pub open spec fn selected(self) -> int {
        self.counter as int % self.backends.len() as int
    }

    /// The backend that an acquisition goes to when `count` others come
    /// before it and the counter does not wrap on the way.
    pub open spec fn selection(self, count: nat) -> int {
        (self.counter + count) % (self.backends.len() as int)
    }

    /// The counter after one more acquisition. It wraps around at the end of
    /// its range.
    pub open spec fn next_counter(self) -> usize {
        if self.counter == usize::MAX {
            0
        } else {
            (self.counter + 1) as usize
        }
    }

    /// The answer to the next acquisition: the oldest idle connection of the
    /// selected backend, or the order to dial that backend if it has none.
    pub open spec fn acquired(self) -> Acquired<C> {
        let b = self.selected();
        if self.idle[b].len() > 0 {
            Acquired::Reused { backend: b as usize, connection: self.idle[b][0] }
        } else {
            Acquired::Dial { backend: b as usize }
        }
    }

    /// The pool after the next acquisition.
    pub open spec fn after_acquire(self) -> Self {
        let b = self.selected();
        RoundRobin {
            counter: self.next_counter(),
            idle: if self.idle[b].len() > 0 {
                self.idle.update(b, self.idle[b].drop_first())
            } else {
                self.idle
            },
            ..self
        }
    }

    /// The pool after `count` acquisitions.
    pub open spec fn after_acquires(self, count: nat) -> Self
        decreases count,
    {
        if count == 0 {
            self
        } else {
            self.after_acquires((count - 1) as nat).after_acquire()
        }
    }

    /// How many of the next `count` acquisitions are served with an idle
    /// connection, so that nothing has to be dialled for them.
    pub open spec fn reused_among(self, count: nat) -> nat
        decreases count,
    {
        if count == 0 {
            0
        } else {
            let before = (count - 1) as nat;
            self.reused_among(before) + if self.after_acquires(before).acquired() is Reused {
                1nat
            } else {
                0nat
            }
        }
    }

    /// The pool after `connection` was given back for backend `b`: it joins
    /// the end of the queue if the queue has room, and is dropped if not.
    pub open spec fn release(self, b: int, connection: C) -> Self {
        if self.idle[b].len() < self.cap {
            RoundRobin { idle: self.idle.update(b, self.idle[b].push(connection)), ..self }
        } else {
            self
        }
    }

    /// The pool after the connections of `returned` were given back for
    /// backend `b`, one after the other.
    pub open spec fn release_all(self, b: int, returned: Seq<C>) -> Self
        decreases returned.len(),
    {
        if returned.len() == 0 {
            self
        } else {
            self.release_all(b, returned.drop_last()).release(b, returned.last())
        }
    }

    /// An acquisition keeps the pool well formed.
    pub proof fn law_acquire_keeps_wf(self)
        requires
            self.wf(),
            self.backends.len() > 0,
        ensures
            self.after_acquire().wf(),
            self.after_acquire().backends == self.backends,
            self.after_acquire().cap == self.cap,
    {
    }

    /// Any number of acquisitions keeps the pool well formed.
    pub proof fn law_acquires_keep_wf(self, count: nat)
        requires
            self.wf(),
            self.backends.len() > 0,
        ensures
            self.after_acquires(count).wf(),
            self.after_acquires(count).backends == self.backends,
            self.after_acquires(count).cap == self.cap,
        decreases count,
    {
        if count > 0 {
            self.law_acquires_keep_wf((count - 1) as nat);
            self.after_acquires((count - 1) as nat).law_acquire_keeps_wf();
        }
    }

    /// The pool turns no request away: every acquisition, however many came
    /// before it, is answered with a connection or with the order to dial
    /// one.
    pub proof fn law_every_acquisition_is_served(self, count: nat)
        requires
            self.backends.len() > 0,
        ensures
            self.after_acquires(count).acquired() != Acquired::<C>::Unavailable,
    {
    }

    /// Each acquisition that is served without a dial uses up one idle
    /// connection. So where nothing is given back in between, at most as
    /// many acquisitions can do without a dial as the pool holds idle
    /// connections, and that is at most the number of backends times the
    /// cap.
    pub proof fn law_reuse_is_bounded(self, count: nat)
        requires
            self.wf(),
            self.backends.len() > 0,
        ensures
            self.reused_among(count) + idle_total(self.after_acquires(count).idle) == idle_total(
                self.idle,
            ),
            self.reused_among(count) <= idle_total(self.idle),
            idle_total(self.idle) <= self.backends.len() * self.cap,
        decreases count,
    {
        lemma_idle_total_bound(self.idle, self.cap as nat);
        if count > 0 {
            let before = (count - 1) as nat;
            self.law_reuse_is_bounded(before);
            self.law_acquires_keep_wf(before);
            let pool = self.after_acquires(before);
            let b = pool.selected();
            if pool.idle[b].len() > 0 {
                lemma_idle_total_update(pool.idle, b, pool.idle[b].drop_first());
            }
        }
    }

    /// Fairness of the rotation: as long as the counter does not wrap, the
    /// acquisition that follows `count` others goes to the backend
    /// `(counter + count) mod N`, whoever asks and whatever the queues hold.
    pub proof fn law_rotation(self, count: nat)
        requires
            self.backends.len() > 0,
            self.counter + count <= usize::MAX,
        ensures
            self.after_acquires(count).backends == self.backends,
            self.after_acquires(count).counter == self.counter + count,
            self.after_acquires(count).selected() == self.selection(count),
            self.after_acquires(count).acquired().backend() == Some(self.selection(count)),
        decreases count,
    {
        if count > 0 {
            self.law_rotation((count - 1) as nat);
        }
        let turn = self.counter + count;
        let n = self.backends.len() as int;
        assert(0 <= turn % n <= turn) by (nonlinear_arith)
            requires
                0 <= turn,
                0 < n,
        ;
    }

    /// From a new pool the backends are selected in the order
    /// 0, 1, ..., N-1, 0, 1, ...: the acquisition that follows `count` others
    /// goes to backend `count mod N`.
    pub proof fn law_rotation_from_start(backends: Seq<Backend>, cap: usize, count: nat)
        requires
            backends.len() > 0,
            count <= usize::MAX,
        ensures
            Self::fresh(backends, cap).after_acquires(count).acquired().backend() == Some(
                count as int % backends.len() as int,
            ),
    {
        Self::fresh(backends, cap).law_rotation(count);
    }

    /// An acquisition touches no queue but that of the backend it selects.
    pub proof fn law_acquire_leaves_others(self, b: int)
        requires
            self.wf(),
            self.backends.len() > 0,
            0 <= b < self.backends.len(),
            b != self.selected(),
        ensures
            self.after_acquire().idle[b] == self.idle[b],
    {
    }

    /// Reuse: a connection given back for backend `b`, whose queue was empty
    /// and may hold at least one connection, is handed out by the next
    /// acquisition that selects `b`. That acquisition dials nothing, however
    /// many acquisitions for other backends came in between.
    pub proof fn law_released_is_reused(self, b: int, connection: C, between: nat)
        requires
            self.wf(),
            0 <= b < self.backends.len(),
            self.idle[b].len() == 0,
            self.cap > 0,
            forall|k: nat|
                k < between ==> (#[trigger] self.release(b, connection).after_acquires(
                    k,
                )).selected() != b,
            self.release(b, connection).after_acquires(between).selected() == b,
        ensures
            self.release(b, connection).after_acquires(between).acquired() == (Acquired::Reused {
                backend: b as usize,
                connection,
            }),
    {
        self.release(b, connection).lemma_queue_waits(b, between);
    }

    /// While no acquisition selects backend `b`, its queue stays as it is.
    proof fn lemma_queue_waits(self, b: int, between: nat)
        requires
            self.wf(),
            0 <= b < self.backends.len(),
            forall|k: nat| k < between ==> (#[trigger] self.after_acquires(k)).selected() != b,
        ensures
            self.after_acquires(between).wf(),
            self.after_acquires(between).backends == self.backends,
            self.after_acquires(between).idle[b] == self.idle[b],
        decreases between,
    {
        if between > 0 {
            let before = (between - 1) as nat;
            self.lemma_queue_waits(b, before);
        }
    }

    /// First in, first out: the oldest idle connection of the selected
    /// backend is the one that is handed out, and a connection that is given
    /// back waits behind those that were idle before it.
    pub proof fn law_fifo(self, b: int, connection: C)
        requires
            self.wf(),
            0 <= b < self.backends.len(),
            self.selected() == b,
            self.idle[b].len() < self.cap,
        ensures
            self.release(b, connection).acquired() == (Acquired::Reused {
                backend: b as usize,
                connection: self.idle[b].push(connection)[0],
            }),
            self.release(b, connection).after_acquire().idle[b] == self.idle[b].push(
                connection,
            ).drop_first(),
    {
    }

    /// The cap: giving a connection back never makes a queue longer than the
    /// cap, and a connection that finds its queue full is dropped.
    pub proof fn law_release_keeps_cap(self, b: int, connection: C)
        requires
            self.wf(),
            0 <= b < self.backends.len(),
        ensures
            self.release(b, connection).wf(),
            self.release(b, connection).idle[b].len() <= self.cap,
            self.idle[b].len() == self.cap ==> self.release(b, connection) == self,
    {
    }

    /// The cap, for any number of returns: of the connections given back for
    /// one backend, those are kept that found room, in the order in which
    /// they came, and the others are dropped. The queue ends as the first
    /// `cap` of the old queue followed by the returned connections.
    pub proof fn law_returns_fill_to_cap(self, b: int, returned: Seq<C>)
        requires
            self.wf(),
            0 <= b < self.backends.len(),
        ensures
            self.release_all(b, returned).wf(),
            self.release_all(b, returned).backends == self.backends,
            self.release_all(b, returned).cap == self.cap,
            self.release_all(b, returned).idle[b] == first_up_to(
                self.idle[b] + returned,
                self.cap as int,
            ),
            self.release_all(b, returned).idle[b].len() <= self.cap,
        decreases returned.len(),
    {
        let all = self.idle[b] + returned;
        if returned.len() > 0 {
            let earlier = returned.drop_last();
            self.law_returns_fill_to_cap(b, earlier);
            let kept = self.idle[b] + earlier;
            assert(all =~= kept.push(returned.last()));
            assert(first_up_to(all, self.cap as int) =~= if kept.len() < self.cap {
                kept.push(returned.last())
            } else {
                first_up_to(kept, self.cap as int)
            });
        }
    }
}

/// The round-robin pool. It holds the backends, the counter that deals them
/// out, and for each backend the queue of its idle connections.
pub struct ConnectionPool<C> {
    backends: Vec<ConnString>,
    current: usize,
    pools: Vec<VecDeque<C>>,
    max_pool_size: usize,
}

impl<C> View for ConnectionPool<C> {
    type V = RoundRobin<C>;

    closed spec fn view(&self) -> RoundRobin<C> {
        RoundRobin {
            backends: backends_of(self.backends@),
            counter: self.current,
            idle: Seq::new(self.pools@.len(), |b: int| self.pools@[b]@),
            cap: self.max_pool_size,
        }
    }
}

impl<C> ConnectionPool<C> {
    #[verifier::type_invariant]
    spec fn well_formed(&self) -> bool {
        self@.wf()
    }

    /// A pool over `backends` that keeps at most `max_pool_size` idle
    /// connections for each of them.
    pub fn new(backends: Vec<ConnString>, max_pool_size: usize) -> (pool: ConnectionPool<C>)
        ensures
            pool@ == RoundRobin::<C>::fresh(backends_of(backends@), max_pool_size),
            pool@.wf(),
    {
        let mut pools: Vec<VecDeque<C>> = Vec::new();
        let mut i: usize = 0;
        while i < backends.len()
            invariant
                i <= backends.len(),
                pools@.len() == i,
                forall|b: int| 0 <= b < i ==> (#[trigger] pools@[b])@ == Seq::<C>::empty(),
            decreases backends.len() - i,
        {
            pools.push(VecDeque::new());
            i += 1;
        }
        let pool = ConnectionPool { backends, current: 0, pools, max_pool_size };
        assert(pool@.idle =~= RoundRobin::<C>::fresh(backends_of(backends@), max_pool_size).idle);
        pool
    }

    /// The backends, in the order in which they are dealt out.
    pub fn backends(&self) -> (backends: &Vec<ConnString>)
        ensures
            backends_of(backends@) == self@.backends,
    {
        &self.backends
    }

    /// The value of the selection counter.
    pub fn current(&self) -> (counter: usize)
        ensures
            counter == self@.counter,
    {
        self.current
    }

    pub fn max_pool_size(&self) -> (cap: usize)
        ensures
            cap == self@.cap,
    {
        self.max_pool_size
    }

    /// The number of idle queues, one for each backend.
    pub fn queue_count(&self) -> (count: usize)
        ensures
            count == self@.idle.len(),
            count == self@.backends.len(),
    {
        proof {
            use_type_invariant(self);
        }
        self.pools.len()
    }

    /// The number of idle connections that are kept for backend
    /// `backend_idx`.
    pub fn idle_count(&self, backend_idx: usize) -> (count: usize)
        requires
            backend_idx < self@.backends.len(),
        ensures
            count == self@.idle[backend_idx as int].len(),
            count <= self@.cap,
    {
        proof {
            use_type_invariant(self);
        }
        self.pools[backend_idx].len()
    }

    /// Moves the pool out of `self` and leaves a pool without backends in its
    /// place, so that the parts can be worked on one by one.
    fn take(&mut self) -> (taken: ConnectionPool<C>)
        ensures
            taken == *old(self),
    {
        let mut taken = ConnectionPool {
            backends: Vec::new(),
            current: 0,
            pools: Vec::new(),
            max_pool_size: 0,
        };
        std::mem::swap(self, &mut taken);
        taken
    }

    /// Gives `stream` back for backend `backend_idx`. The connection is kept
    /// for reuse if the queue of that backend has room, and dropped, which
    /// closes it, if not.
    pub fn return_connection(&mut self, backend_idx: usize, stream: C)
        requires
            backend_idx < old(self)@.backends.len(),
        ensures
            final(self)@ == old(self)@.release(backend_idx as int, stream),
            final(self)@.wf(),
    {
        proof {
            use_type_invariant(&*self);
        }
        let ConnectionPool { backends, current, mut pools, max_pool_size } = self.take();
        if pools[backend_idx].len() < max_pool_size {
            pools[backend_idx].push_back(stream);
        }
        proof {
            let after = old(self)@.release(backend_idx as int, stream);
            old(self)@.law_release_keeps_cap(backend_idx as int, stream);
            assert(Seq::new(pools@.len(), |b: int| pools@[b]@) =~= after.idle);
        }
        let pool = ConnectionPool { backends, current, pools, max_pool_size };
        *self = pool;
    }
}

impl<C> FastTcpPool<C> for ConnectionPool<C> {
    open spec fn has_backend(&self) -> bool {
        self@.backends.len() > 0
    }

    /// Selects the next backend in turn and answers with its oldest idle
    /// connection, or with the order to dial it. The selection does not
    /// depend on `session_id`.
    fn get_connection(&mut self, session_id: u64) -> (acquired: Acquired<C>)
        ensures
            acquired == old(self)@.acquired(),
            final(self)@ == old(self)@.after_acquire(),
            final(self)@.wf(),
    {
        proof {
            use_type_invariant(&*self);
        }
        let ConnectionPool { backends, current, mut pools, max_pool_size } = self.take();
        let backend_idx: usize = current % backends.len();
        let oldest = pools[backend_idx].pop_front();
        proof {
            let after = old(self)@.after_acquire();
            old(self)@.law_acquire_keeps_wf();
            assert(Seq::new(pools@.len(), |b: int| pools@[b]@) =~= after.idle);
        }
        let pool = ConnectionPool {
            backends,
            current: current.wrapping_add(1),
            pools,
            max_pool_size,
        };
        *self = pool;
        match oldest {
            Some(stream) => Acquired::Reused { backend: backend_idx, connection: stream },
            None => Acquired::Dial { backend: backend_idx },
        }
    }
}

} // verus!
