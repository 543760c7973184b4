//! The accept loop, as the decisions it takes: whether to start at all, and
//! what each attempt to accept a connection leads to.

use crate::domain::ident::{fresh_id, is_random_id};
use vstd::prelude::*;

verus! {

/// How the sessions of a balancer are told apart. It goes with the pool in
/// use: a round-robin pool numbers its requests, a sticky pool knows owners.
#[derive(Debug, Clone, Copy, PartialEq, Eq, Structural)]
pub enum IdScheme {
    /// Each session gets the next request number, counting from zero.
    Numbered,
    /// Each session gets a new random owner identifier.
    RandomOwner,
}

/// What one session goes by.
#[derive(Debug, Clone, Copy, PartialEq, Eq, Structural)]
pub enum SessionId {
    Request(u64),
    Owner(u128),
}

/// The state of an accept loop.
pub struct Accepting {
    pub scheme: IdScheme,
    /// The number that the next numbered session gets.
    pub next_request: u64,
}

impl Accepting {
    /// The number that follows `number`. The numbers wrap around at the end
    /// of their range.
    pub open spec fn following(number: u64) -> u64 {
        if number == u64::MAX {
            0
        } else {
            (number + 1) as u64
        }
    }

    /// The loop after a connection was accepted.
    pub open spec fn after_accept(self) -> Self {
        match self.scheme {
            IdScheme::Numbered => Accepting {
                next_request: Self::following(self.next_request),
                ..self
            },
            IdScheme::RandomOwner => self,
        }
    }

    /// The loop after `count` connections were accepted.
    pub open spec fn after_accepts(self, count: nat) -> Self
        decreases count,
    {
        if count == 0 {
            self
        } else {
            self.after_accepts((count - 1) as nat).after_accept()
        }
    }

    /// Request numbers count up: while the numbers do not wrap, the session
    /// that is accepted after `count` others gets the number
    /// `next_request + count`, so each session has a greater number than
    /// every one before it. Failed attempts use up no number.
    pub proof fn law_request_numbers_count_up(self, count: nat)
        requires
            self.scheme == IdScheme::Numbered,
            self.next_request + count <= u64::MAX,
        ensures
            self.after_accepts(count).scheme == IdScheme::Numbered,
            self.after_accepts(count).next_request == self.next_request + count,
        decreases count,
    {
        if count > 0 {
            self.law_request_numbers_count_up((count - 1) as nat);
        }
    }
}

/// The accept loop of a balancer whose listener is bound.
#[derive(Debug)]
pub struct AcceptLoop {
    scheme: IdScheme,
    next_request: u64,
}

impl View for AcceptLoop {
    type V = Accepting;

    closed spec fn view(&self) -> Accepting {
        Accepting { scheme: self.scheme, next_request: self.next_request }
    }
}

impl AcceptLoop {
    /// Starts the loop once the attempt to bind the listener is over.
    /// Without a listener there is no loop: that the address could not be
    /// bound is fatal, and the balancer ends before it accepts anything.
    pub fn start(bound: bool, scheme: IdScheme) -> (started: Option<AcceptLoop>)
        ensures
            match started {
                Some(accept_loop) => bound && accept_loop@ == (Accepting { scheme, next_request: 0 }),
                None => !bound,
            },
    {
        if bound {
            Some(AcceptLoop { scheme, next_request: 0 })
        } else {
            None
        }
    }

    /// Takes the outcome of one attempt to accept a connection. For an
    /// accepted connection the answer is the identifier under which a
    /// session is to be started for it. A failed attempt starts no session
    /// and changes nothing; in either case the loop goes on accepting.
    pub fn on_accept(&mut self, accepted: bool) -> (session: Option<SessionId>)
        ensures
            !accepted ==> session is None && final(self)@ == old(self)@,
            accepted ==> final(self)@ == old(self)@.after_accept(),
            accepted ==> match old(self)@.scheme {
                IdScheme::Numbered => session == Some(
                    SessionId::Request(old(self)@.next_request),
                ),
                IdScheme::RandomOwner => match session {
                    Some(SessionId::Owner(owner)) => is_random_id(owner),
                    _ => false,
                },
            },
    {
        if !accepted {
            return None;
        }
        match self.scheme {
            IdScheme::Numbered => {
                let number: u64 = self.next_request;
                self.next_request = number.wrapping_add(1);
                Some(SessionId::Request(number))
            },
            IdScheme::RandomOwner => Some(SessionId::Owner(fresh_id())),
        }
    }
}

} // verus!
