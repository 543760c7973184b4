//! The capped pool: one backend, and a hard ceiling on the connections to it
//! that are open at once. A request that finds the ceiling reached is turned
//! away at once; nothing queues.

use crate::domain::tcp_conn_pool::{Acquired, TcpConnectionPool};
use vstd::prelude::*;
use vstd::string::StringExecFns;

verus! {

/// The state of a capped pool over connections of type `C`.
pub struct Capped<C> {
    /// The address of the backend.
    pub target: Seq<char>,
    /// The ceiling.
    pub max: usize,
    /// The connections that were opened and not yet reported closed.
    pub open: usize,
    /// The idle connections, the one that is handed out next at the end.
    pub idle: Seq<C>,
}

impl<C> Capped<C> {
    /// Conservation: the open and the idle connections together never
    /// exceed the ceiling.
    pub open spec fn wf(self) -> bool {
        self.open + self.idle.len() <= self.max
    }

    /// A pool that has opened nothing yet.
    pub open spec fn fresh(target: Seq<char>, max: usize) -> Self {
        Capped { target, max, open: 0, idle: Seq::empty() }
    }

    /// One more connection may be opened.
    pub open spec fn has_room(self) -> bool {
        self.open + self.idle.len() < self.max
    }

    /// The answer to the next acquisition: an idle connection if there is
    /// one; else the order to dial, while there is room under the ceiling;
    /// else a refusal.
    pub open spec fn acquired(self) -> Acquired<C> {
        if self.idle.len() > 0 {
            Acquired::Reused { backend: 0, connection: self.idle.last() }
        } else if self.has_room() {
            Acquired::Dial { backend: 0 }
        } else {
            Acquired::Unavailable
        }
    }

    /// The pool after the next acquisition. Only an idle connection that is
    /// handed out changes it: the order to dial counts nothing yet.
    pub open spec fn after_acquire(self) -> Self {
        if self.idle.len() > 0 {
            Capped { idle: self.idle.drop_last(), ..self }
        } else {
            self
        }
    }

    /// The pool after a connection was opened.
    pub open spec fn opened(self) -> Self {
        Capped { open: (self.open + 1) as usize, ..self }
    }

    /// The pool after an open connection was reported closed.
    pub open spec fn closed(self) -> Self {
        Capped { open: (self.open - 1) as usize, ..self }
    }

    /// Conservation holds after every step that the pool can take.
    pub proof fn law_conservation(self)
        requires
            self.wf(),
        ensures
            self.after_acquire().wf(),
            self.has_room() ==> self.opened().wf(),
            self.open > 0 ==> self.closed().wf(),
    {
    }

    /// At the ceiling the pool opens nothing: with no idle connection and no
    /// room, the request is turned away and the pool stays as it is.
    pub proof fn law_ceiling_rejects(self)
        requires
            self.wf(),
            self.idle.len() == 0,
            self.open == self.max,
        ensures
            self.acquired() == Acquired::<C>::Unavailable,
            self.after_acquire() == self,
    {
    }

    /// Closing restores capacity: once an open connection is reported
    /// closed, the next acquisition is served.
    pub proof fn law_close_restores_capacity(self)
        requires
            self.wf(),
            self.open > 0,
        ensures
            self.closed().acquired() != Acquired::<C>::Unavailable,
            self.idle.len() == 0 ==> self.closed().acquired() == (Acquired::<C>::Dial {
                backend: 0,
            }),
    {
    }

    /// Opening and closing pair up: a connection that is opened and then
    /// reported closed leaves the count where it was.
    pub proof fn law_open_close_pairs(self)
        requires
            self.wf(),
            self.has_room(),
        ensures
            self.opened().closed() == self,
    {
    }
}

/// The capped pool.
pub struct RoundTcpConnectionPool<C> {
    target_addr: String,
    max_connections: usize,
    current_connections: usize,
    available_connections: Vec<C>,
}

impl<C> View for RoundTcpConnectionPool<C> {
    type V = Capped<C>;

    closed spec fn view(&self) -> Capped<C> {
        Capped {
            target: self.target_addr@,
            max: self.max_connections,
            open: self.current_connections,
            idle: self.available_connections@,
        }
    }
}

impl<C> RoundTcpConnectionPool<C> {
    #[verifier::type_invariant]
    spec fn well_formed(&self) -> bool {
        self@.wf()
    }

    /// A pool for the backend at `target_addr` that lets at most
    /// `max_connections` connections be open at once.
    pub fn new(target_addr: &str, max_connections: usize) -> (pool: RoundTcpConnectionPool<C>)
        ensures
            pool@ == Capped::<C>::fresh(target_addr@, max_connections),
            pool@.wf(),
    {
        RoundTcpConnectionPool {
            target_addr: String::from_str(target_addr),
            max_connections,
            current_connections: 0,
            available_connections: Vec::new(),
        }
    }

    /// The address of the backend.
    pub fn target_addr(&self) -> (target: &str)
        ensures
            target@ == self@.target,
    {
        self.target_addr.as_str()
    }

    pub fn max_connections(&self) -> (max: usize)
        ensures
            max == self@.max,
    {
        self.max_connections
    }

    /// The number of connections that are counted as open.
    pub fn current_connections(&self) -> (open: usize)
        ensures
            open == self@.open,
            open + self@.idle.len() <= self@.max,
    {
        proof {
            use_type_invariant(self);
        }
        self.current_connections
    }

    /// The number of idle connections.
    pub fn available_count(&self) -> (idle: usize)
        ensures
            idle == self@.idle.len(),
    {
        self.available_connections.len()
    }

    /// Moves the pool out of `self` and leaves an empty pool with ceiling 0
    /// in its place, so that the parts can be worked on one by one.
    fn take(&mut self) -> (taken: RoundTcpConnectionPool<C>)
        ensures
            taken == *old(self),
    {
        let mut taken = RoundTcpConnectionPool {
            target_addr: String::new(),
            max_connections: 0,
            current_connections: 0,
            available_connections: Vec::new(),
        };
        std::mem::swap(self, &mut taken);
        taken
    }

    /// Takes the outcome of the dial that `get_connection` ordered: the new
    /// connection, or `None` if the backend could not be reached. A new
    /// connection is counted as open and handed on, unless the ceiling has
    /// been reached in the meantime: then it is dropped, which closes it,
    /// and nothing is counted.
    pub fn complete_dial(&mut self, dialed: Option<C>) -> (connection: Option<C>)
        ensures
            match dialed {
                Some(stream) => if old(self)@.has_room() {
                    final(self)@ == old(self)@.opened() && connection == Some(stream)
                } else {
                    final(self)@ == old(self)@ && connection is None
                },
                None => final(self)@ == old(self)@ && connection is None,
            },
            final(self)@.wf(),
    {
        proof {
            use_type_invariant(&*self);
        }
        match dialed {
            Some(stream) => {
                if self.available_connections.len() < self.max_connections
                    && self.current_connections < self.max_connections
                    - self.available_connections.len() {
                    self.current_connections += 1;
                    Some(stream)
                } else {
                    None
                }
            },
            None => None,
        }
    }
}

impl<C> TcpConnectionPool<C> for RoundTcpConnectionPool<C> {
    open spec fn open_connections(&self) -> nat {
        self@.open as nat
    }

    /// Answers with an idle connection, with the order to dial the backend,
    /// or with a refusal where the ceiling is reached. The caller reports
    /// the outcome of a dial to `complete_dial`.
    fn get_connection(&mut self) -> (acquired: Acquired<C>)
        ensures
            acquired == old(self)@.acquired(),
            final(self)@ == old(self)@.after_acquire(),
            final(self)@.wf(),
    {
        proof {
            use_type_invariant(&*self);
        }
        let RoundTcpConnectionPool {
            target_addr,
            max_connections,
            current_connections,
            mut available_connections,
        } = self.take();
        let idle = available_connections.pop();
        let has_room = current_connections < max_connections;
        *self = RoundTcpConnectionPool {
            target_addr,
            max_connections,
            current_connections,
            available_connections,
        };
        match idle {
            Some(stream) => Acquired::Reused { backend: 0, connection: stream },
            None => if has_room {
                Acquired::Dial { backend: 0 }
            } else {
                Acquired::Unavailable
            },
        }
    }

    /// Counts one open connection less. It is to be called once for each
    /// connection that was opened and has ended.
    fn connection_closed(&mut self)
        ensures
            final(self)@ == old(self)@.closed(),
            final(self)@.wf(),
    {
        proof {
            use_type_invariant(&*self);
        }
        self.current_connections -= 1;
    }
}

} // verus!
