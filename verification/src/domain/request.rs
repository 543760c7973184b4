//! The record that is kept of one proxied session.

use crate::domain::ident::{fresh_id, is_random_id};
use vstd::prelude::*;

verus! {

/// Where a session stands. A session is created, then processed, and ends as
/// completed or failed; it may also fail before it was ever processed.
#[derive(Debug, Clone, Copy, PartialEq, Eq, Structural)]
pub enum Status {
    Created,
    Processing,
    Completed,
    Failed,
}

impl Status {
    /// The session has ended.
    pub open spec fn is_terminal(self) -> bool {
        self is Completed || self is Failed
    }

    /// How far a session in this status has come.
    pub open spec fn rank(self) -> nat {
        match self {
            Status::Created => 0,
            Status::Processing => 1,
            Status::Completed => 2,
            Status::Failed => 2,
        }
    }

    /// A session in this status may go over to `next`.
    pub open spec fn may_become(self, next: Status) -> bool {
        match (self, next) {
            (Status::Created, Status::Processing) => true,
            (Status::Created, Status::Failed) => true,
            (Status::Processing, Status::Completed) => true,
            (Status::Processing, Status::Failed) => true,
            _ => false,
        }
    }

    /// Whether a session in this status may go over to `next`.
    pub fn can_become(self, next: Status) -> (allowed: bool)
        ensures
            allowed == self.may_become(next),
    {
        match (self, next) {
            (Status::Created, Status::Processing) => true,
            (Status::Created, Status::Failed) => true,
            (Status::Processing, Status::Completed) => true,
            (Status::Processing, Status::Failed) => true,
            _ => false,
        }
    }

    /// No status follows a terminal one.
    pub proof fn law_terminal_is_final(self, next: Status)
        requires
            self.is_terminal(),
        ensures
            !self.may_become(next),
    {
    }

    /// Every change of status moves the session forward: there is no way back
    /// to an earlier status, and none from a status to itself.
    pub proof fn law_changes_move_forward(self, next: Status)
        requires
            self.may_become(next),
        ensures
            self.rank() < next.rank(),
    {
    }
}

/// A session record as the contracts see it.
pub struct SessionRecord {
    pub id: u128,
    /// The address the session is proxied to.
    pub target: Seq<char>,
    pub status: Status,
    /// The owner the session belongs to, where the pool in use knows owners.
    pub owner: Option<u128>,
    /// The time the relay took, in nanoseconds.
    pub time_taken: Option<u64>,
    /// The number of bytes relayed.
    pub bytes: Option<usize>,
}

/// The record of one proxied session: what it was for, how far it came, and
/// how long it took and how much it carried once that is known. It serves
/// observation only: the handler of the session writes it, nothing reads it
/// to decide.
#[derive(Debug, Clone)]
pub struct Request {
    uuid: u128,
    target: String,
    status: Status,
    user_id: Option<u128>,
    time_taken: Option<u64>,
    bytes: Option<usize>,
}

impl View for Request {
    type V = SessionRecord;

    closed spec fn view(&self) -> SessionRecord {
        SessionRecord {
            id: self.uuid,
            target: self.target@,
            status: self.status,
            owner: self.user_id,
            time_taken: self.time_taken,
            bytes: self.bytes,
        }
    }
}

impl Request {
    /// The record of a new session for `target` that belongs to `user_id`.
    pub fn new(target: String, user_id: u128) -> (request: Request)
        ensures
            is_random_id(request@.id),
            request@ == (SessionRecord {
                id: request@.id,
                target: target@,
                status: Status::Created,
                owner: Some(user_id),
                time_taken: None,
                bytes: None,
            }),
    {
        Request {
            uuid: fresh_id(),
            target,
            status: Status::Created,
            user_id: Some(user_id),
            time_taken: None,
            bytes: None,
        }
    }

    /// The record of a new session for `target` that belongs to no owner.
    pub fn unowned(target: String) -> (request: Request)
        ensures
            is_random_id(request@.id),
            request@ == (SessionRecord {
                id: request@.id,
                target: target@,
                status: Status::Created,
                owner: None,
                time_taken: None,
                bytes: None,
            }),
    {
        Request {
            uuid: fresh_id(),
            target,
            status: Status::Created,
            user_id: None,
            time_taken: None,
            bytes: None,
        }
    }

    /// The identifier of the session.
    pub fn get_uuid(&self) -> (id: u128)
        ensures
            id == self@.id,
    {
        self.uuid
    }

    pub fn get_target(&self) -> (target: &str)
        ensures
            target@ == self@.target,
    {
        self.target.as_str()
    }

    pub fn get_user_id(&self) -> (owner: Option<u128>)
        ensures
            owner == self@.owner,
    {
        self.user_id
    }

    pub fn get_status(&self) -> (status: &Status)
        ensures
            *status == self@.status,
    {
        &self.status
    }

    /// The time the relay took, in nanoseconds.
    pub fn get_time_taken(&self) -> (nanos: Option<u64>)
        ensures
            nanos == self@.time_taken,
    {
        self.time_taken
    }

    pub fn get_bytes(&self) -> (bytes: Option<usize>)
        ensures
            bytes == self@.bytes,
    {
        self.bytes
    }

    /// Moves the session over to `status` if it may go there from where it
    /// stands, and says whether it did. A change that is not allowed leaves
    /// the record as it was.
    pub fn set_status(&mut self, status: Status) -> (changed: bool)
        ensures
            changed == old(self)@.status.may_become(status),
            final(self)@ == (SessionRecord {
                status: if changed {
                    status
                } else {
                    old(self)@.status
                },
                ..old(self)@
            }),
    {
        if self.status.can_become(status) {
            self.status = status;
            true
        } else {
            false
        }
    }

    pub fn set_bytes(&mut self, bytes: usize)
        ensures
            final(self)@ == (SessionRecord { bytes: Some(bytes), ..old(self)@ }),
    {
        self.bytes = Some(bytes);
    }

    /// Records the time the relay took, in nanoseconds.
    pub fn set_time_taken(&mut self, nanos: u64)
        ensures
            final(self)@ == (SessionRecord { time_taken: Some(nanos), ..old(self)@ }),
    {
        self.time_taken = Some(nanos);
    }
}

} // verus!
