//! What every connection pool offers to the layer above it.
//!
//! A pool opens no connection itself. Asked for one, it answers with an idle
//! connection that it holds, or with the backend that its caller is to dial.

use vstd::prelude::*;

verus! {

/// The answer of a pool that was asked for a connection.
pub enum Acquired<C> {
    /// An idle connection to backend `backend`, taken out of the pool.
    Reused { backend: usize, connection: C },
    /// The pool holds no idle connection for backend `backend`: the caller
    /// opens a new one.
    Dial { backend: usize },
    /// The pool will not serve the request.
    Unavailable,
}

impl<C> Acquired<C> {
    /// The backend that the answer names, if it names one.
    pub open spec fn backend(self) -> Option<int> {
        match self {
            Acquired::Reused { backend, .. } => Some(backend as int),
            Acquired::Dial { backend } => Some(backend as int),
            Acquired::Unavailable => None,
        }
    }
}

/// A pool with a hard ceiling on the connections that are open at once.
pub trait TcpConnectionPool<C> {
    /// The number of connections that the pool counts as open.
    spec fn open_connections(&self) -> nat;

    fn get_connection(&mut self) -> (acquired: Acquired<C>)
    ;

    /// Tells the pool that a connection which it counted as open has been
    /// closed for good.
    fn connection_closed(&mut self)
        requires
            old(self).open_connections() > 0,
        ensures
            final(self).open_connections() == old(self).open_connections() - 1,
    ;
}

/// A pool that keeps each owner on the backend it was first given.
pub trait SmartTcpConnectionPool {
    /// The pool has at least one backend.
    spec fn has_backend(&self) -> bool;

    /// The backend to dial for `user_id`.
    fn get_connection(&mut self, user_id: u128) -> (backend: Option<usize>)
        requires
            old(self).has_backend(),
    ;
}

/// A pool that deals requests out over its backends in turn.
pub trait FastTcpPool<C> {
    /// The pool has at least one backend.
    spec fn has_backend(&self) -> bool;

    fn get_connection(&mut self, session_id: u64) -> (acquired: Acquired<C>)
        requires
            old(self).has_backend(),
    ;
}

} // verus!
