//! The handling of one accepted connection, as the decisions it takes.
//!
//! A session owns one inbound connection. It asks the pool for a backend
//! connection, has the bytes relayed between the two under a deadline, and
//! ends by giving the backend connection back or dropping it. The session
//! itself touches no socket: it is told what happened, and answers with what
//! is to be done next.

use crate::domain::request::{Request, SessionRecord, Status};
use crate::infrastructure::fast_tcp_pool::ConnectionPool;
use crate::proxy::load_balancer::SessionId;
use vstd::prelude::*;

verus! {

/// Why a session failed.
#[derive(Debug, Clone, Copy, PartialEq, Eq, Structural)]
pub enum FailureCause {
    /// The pool had no connection to give.
    BackendUnavailable,
    /// Reading or writing failed on one of the two connections.
    RelayError,
    /// The relay was not over when the deadline passed.
    Timeout,
}

/// What a session is told.
#[derive(Debug, Clone, Copy, PartialEq, Eq, Structural)]
pub enum SessionEvent {
    /// The pool gave a connection to the backend at the place `backend`.
    BackendAcquired { backend: usize },
    /// The pool gave none.
    BackendUnavailable,
    /// The relay ran until one side closed, within the deadline. `sent` bytes
    /// went from the client to the backend and `received` bytes came back,
    /// in `elapsed_nanos` nanoseconds.
    RelayFinished { sent: u64, received: u64, elapsed_nanos: u64 },
    /// The relay ended on a read or write error.
    RelayFailed,
    /// The deadline passed before the relay was over.
    RelayTimedOut,
}

/// What a session asks for in answer.
#[derive(Debug, Clone, Copy, PartialEq, Eq, Structural)]
pub enum SessionAction {
    /// Relay bytes in both directions until either side closes, for at most
    /// `deadline_secs` seconds.
    Relay { deadline_secs: u64 },
    /// The session is over and the backend connection is sound: give it back
    /// to the pool, for the backend at the place `backend`.
    Release { backend: usize },
    /// The session is over and the backend connection is in an unknown
    /// state: close it, and never give it back.
    Discard,
    /// The session is over and never had a backend connection: there is
    /// nothing left to do but to close the inbound one.
    Close,
    /// The event does not belong to where the session stands: do nothing.
    Ignore,
}

/// The bytes that a relay carried in both directions together, as far as a
/// `usize` can count.
pub open spec fn total_bytes(sent: u64, received: u64) -> usize {
    if sent + received <= usize::MAX {
        (sent + received) as usize
    } else {
        usize::MAX
    }
}

/// A session as the contracts see it.
pub struct SessionState {
    pub id: SessionId,
    pub record: SessionRecord,
    /// The place of the backend that serves the session, once it has one.
    pub backend: Option<usize>,
    /// Why the session failed, once it has.
    pub failure: Option<FailureCause>,
    /// The bytes that the relay carried from the client to the backend and
    /// from the backend to the client, once it has run to its end.
    pub relayed: Option<(u64, u64)>,
    /// The deadline of the relay, in seconds.
    pub deadline_secs: u64,
}

impl SessionState {
    /// A new session has no backend yet, and a session that is processed or
    /// completed has one. A failed session has a cause and no other has one.
    /// A completed session has the byte counts of its relay, and no other
    /// has them; and its record holds their sum and the time that the relay
    /// took.
    pub open spec fn wf(self) -> bool {
        &&& self.record.status is Created ==> self.backend is None
        &&& self.record.status is Processing || self.record.status is Completed
            ==> self.backend is Some
        &&& self.record.status is Failed <==> self.failure is Some
        &&& self.record.status is Completed <==> self.relayed is Some
        &&& self.relayed matches Some((sent, received)) ==> self.record.bytes == Some(
            total_bytes(sent, received),
        ) && self.record.time_taken is Some
    }

    /// The session with the status `status`.
    pub open spec fn with_status(self, status: Status) -> Self {
        SessionState { record: SessionRecord { status, ..self.record }, ..self }
    }

    /// The session after it failed for `cause`.
    pub open spec fn failed(self, cause: FailureCause) -> Self {
        SessionState { failure: Some(cause), ..self.with_status(Status::Failed) }
    }

    /// The session after a relay that carried `sent` and `received` bytes in
    /// `elapsed_nanos` nanoseconds.
    pub open spec fn completed(self, sent: u64, received: u64, elapsed_nanos: u64) -> Self {
        SessionState {
            record: SessionRecord {
                status: Status::Completed,
                bytes: Some(total_bytes(sent, received)),
                time_taken: Some(elapsed_nanos),
                ..self.record
            },
            relayed: Some((sent, received)),
            ..self
        }
    }

    /// The session after `event`.
    ///
    /// A new session waits for the pool: with a backend connection it goes
    /// over to processing, without one it fails. A session in processing
    /// waits for the relay: it completes if the relay ran to its end, and
    /// fails on an error or at the deadline. An event that comes at any
    /// other time changes nothing.
    pub open spec fn after(self, event: SessionEvent) -> Self {
        match (self.record.status, event) {
            (Status::Created, SessionEvent::BackendAcquired { backend }) => SessionState {
                backend: Some(backend),
                ..self.with_status(Status::Processing)
            },
            (Status::Created, SessionEvent::BackendUnavailable) => self.failed(
                FailureCause::BackendUnavailable,
            ),
            (
                Status::Processing,
                SessionEvent::RelayFinished { sent, received, elapsed_nanos },
            ) => self.completed(sent, received, elapsed_nanos),
            (Status::Processing, SessionEvent::RelayFailed) => self.failed(
                FailureCause::RelayError,
            ),
            (Status::Processing, SessionEvent::RelayTimedOut) => self.failed(FailureCause::Timeout),
            _ => self,
        }
    }

    /// What the session asks for in answer to `event`.
    pub open spec fn answer(self, event: SessionEvent) -> SessionAction {
        match (self.record.status, event) {
            (Status::Created, SessionEvent::BackendAcquired { .. }) => SessionAction::Relay {
                deadline_secs: self.deadline_secs,
            },
            (Status::Created, SessionEvent::BackendUnavailable) => SessionAction::Close,
            (Status::Processing, SessionEvent::RelayFinished { .. }) => match self.backend {
                Some(backend) => SessionAction::Release { backend },
                None => SessionAction::Discard,
            },
            (Status::Processing, SessionEvent::RelayFailed) => SessionAction::Discard,
            (Status::Processing, SessionEvent::RelayTimedOut) => SessionAction::Discard,
            _ => SessionAction::Ignore,
        }
    }

    /// Every event leaves the session well formed.
    pub proof fn law_events_keep_wf(self, event: SessionEvent)
        requires
            self.wf(),
        ensures
            self.after(event).wf(),
    {
    }

    /// The status only moves forward: an event leaves it where it is or
    /// takes it along one of the allowed changes.
    pub proof fn law_status_moves_forward(self, event: SessionEvent)
        ensures
            self.after(event).record.status == self.record.status
                || self.record.status.may_become(self.after(event).record.status),
    {
    }

    /// A session that has ended stays as it is, whatever it is told, and
    /// asks for nothing more.
    pub proof fn law_ended_sessions_rest(self, event: SessionEvent)
        requires
            self.record.status.is_terminal(),
        ensures
            self.after(event) == self,
            self.answer(event) == SessionAction::Ignore,
    {
    }

    /// A relay that runs into its deadline ends the session as failed, with
    /// the timeout as the cause, which tells it apart from a relay that broke
    /// on an error; and the backend connection is dropped.
    pub proof fn law_timeout_fails_the_session(self)
        requires
            self.record.status is Processing,
        ensures
            self.after(SessionEvent::RelayTimedOut).record.status is Failed,
            self.after(SessionEvent::RelayTimedOut).failure == Some(FailureCause::Timeout),
            self.after(SessionEvent::RelayFailed).failure == Some(FailureCause::RelayError),
            self.answer(SessionEvent::RelayTimedOut) == SessionAction::Discard,
    {
    }

    /// The backend connection goes back to the pool after a relay that ran
    /// to its end within the deadline, and in no other case; and it goes
    /// back for the backend that the session was given.
    pub proof fn law_release_only_after_completion(self, event: SessionEvent)
        requires
            self.wf(),
        ensures
            self.answer(event) is Release <==> self.record.status is Processing
                && event is RelayFinished,
            self.answer(event) matches SessionAction::Release { backend } ==> self.backend == Some(
                backend,
            ) && self.after(event).record.status is Completed,
    {
    }
}

/// The sessions that run side by side, after `event` was delivered to the
/// one at the place `to`.
pub open spec fn deliver(sessions: Seq<SessionState>, to: int, event: SessionEvent) -> Seq<
    SessionState,
> {
    sessions.update(to, sessions[to].after(event))
}

/// Isolation: an event changes the session that it is delivered to and no
/// other. So a relay that runs into its deadline fails its own session, and
/// every session beside it stands where it stood and answers its own events
/// as before; and events for different sessions may come in either order.
pub proof fn law_sessions_are_isolated(
    sessions: Seq<SessionState>,
    to: int,
    event: SessionEvent,
    other: int,
    next: SessionEvent,
)
    requires
        0 <= to < sessions.len(),
        0 <= other < sessions.len(),
        other != to,
    ensures
        deliver(sessions, to, event)[other] == sessions[other],
        deliver(sessions, to, event)[other].answer(next) == sessions[other].answer(next),
        deliver(deliver(sessions, to, event), other, next) == deliver(
            deliver(sessions, other, next),
            to,
            event,
        ),
{
    assert(deliver(deliver(sessions, to, event), other, next) =~= deliver(
        deliver(sessions, other, next),
        to,
        event,
    ));
}

/// One proxied session.
#[derive(Debug)]
pub struct Session {
    id: SessionId,
    request: Request,
    backend: Option<usize>,
    failure: Option<FailureCause>,
    relayed: Option<(u64, u64)>,
    deadline_secs: u64,
}

impl View for Session {
    type V = SessionState;

    closed spec fn view(&self) -> SessionState {
        SessionState {
            id: self.id,
            record: self.request@,
            backend: self.backend,
            failure: self.failure,
            relayed: self.relayed,
            deadline_secs: self.deadline_secs,
        }
    }
}

impl Session {
    /// The session of a connection that was just accepted under `id`. Its
    /// traffic goes to `target`, and its relay may take `deadline_secs`
    /// seconds. The record of the session belongs to the owner that `id`
    /// names, if it names one.
    pub fn start(id: SessionId, target: String, deadline_secs: u64) -> (session: Session)
        ensures
            session@.wf(),
            session@.id == id,
            session@.deadline_secs == deadline_secs,
            session@.backend is None,
            session@.failure is None,
            session@.relayed is None,
            session@.record == (SessionRecord {
                id: session@.record.id,
                target: target@,
                status: Status::Created,
                owner: match id {
                    SessionId::Owner(owner) => Some(owner),
                    SessionId::Request(_) => None,
                },
                time_taken: None,
                bytes: None,
            }),
    {
        let request = match id {
            SessionId::Owner(owner) => Request::new(target, owner),
            SessionId::Request(_) => Request::unowned(target),
        };
        Session { id, request, backend: None, failure: None, relayed: None, deadline_secs }
    }

    pub fn id(&self) -> (id: SessionId)
        ensures
            id == self@.id,
    {
        self.id
    }

    /// The record of the session.
    pub fn request(&self) -> (request: &Request)
        ensures
            request@ == self@.record,
    {
        &self.request
    }

    /// The place of the backend that serves the session, if it has one.
    pub fn backend(&self) -> (backend: Option<usize>)
        ensures
            backend == self@.backend,
    {
        self.backend
    }

    /// Why the session failed, if it has.
    pub fn failure(&self) -> (failure: Option<FailureCause>)
        ensures
            failure == self@.failure,
    {
        self.failure
    }

    /// The bytes that the relay carried from the client to the backend and
    /// from the backend to the client, if it has run to its end.
    pub fn relayed(&self) -> (relayed: Option<(u64, u64)>)
        ensures
            relayed == self@.relayed,
    {
        self.relayed
    }
}

/// The number of bytes that a relay carried in both directions together.
fn count_bytes(sent: u64, received: u64) -> (total: usize)
    ensures
        total == total_bytes(sent, received),
{
    match sent.checked_add(received) {
        Some(sum) => if sum <= usize::MAX as u64 {
            sum as usize
        } else {
            usize::MAX
        },
        None => usize::MAX,
    }
}

/// Tells `session` what happened to its connection, and answers with what is
/// to be done next.
pub fn handle_connection(session: &mut Session, event: SessionEvent) -> (action: SessionAction)
    ensures
        final(session)@ == old(session)@.after(event),
        action == old(session)@.answer(event),
{
    let status = *session.request.get_status();
    match (status, event) {
        (Status::Created, SessionEvent::BackendAcquired { backend }) => {
            session.request.set_status(Status::Processing);
            session.backend = Some(backend);
            SessionAction::Relay { deadline_secs: session.deadline_secs }
        },
        (Status::Created, SessionEvent::BackendUnavailable) => {
            session.request.set_status(Status::Failed);
            session.failure = Some(FailureCause::BackendUnavailable);
            SessionAction::Close
        },
        (Status::Processing, SessionEvent::RelayFinished { sent, received, elapsed_nanos }) => {
            session.request.set_status(Status::Completed);
            session.request.set_time_taken(elapsed_nanos);
            session.request.set_bytes(count_bytes(sent, received));
            session.relayed = Some((sent, received));
            match session.backend {
                Some(backend) => SessionAction::Release { backend },
                None => SessionAction::Discard,
            }
        },
        (Status::Processing, SessionEvent::RelayFailed) => {
            session.request.set_status(Status::Failed);
            session.failure = Some(FailureCause::RelayError);
            SessionAction::Discard
        },
        (Status::Processing, SessionEvent::RelayTimedOut) => {
            session.request.set_status(Status::Failed);
            session.failure = Some(FailureCause::Timeout);
            SessionAction::Discard
        },
        _ => SessionAction::Ignore,
    }
}

/// Carries out, on the round-robin pool, what a session asked for at its
/// end. The backend connection joins the idle connections of its backend if
/// the session asked to release it. On every other answer it is dropped,
/// which closes it, and the pool stays as it was: a connection in an unknown
/// state is never handed out again.
pub fn settle<C>(pool: &mut ConnectionPool<C>, connection: C, action: SessionAction)
    requires
        action matches SessionAction::Release { backend } ==> backend < old(pool)@.backends.len(),
    ensures
        final(pool)@ == match action {
            SessionAction::Release { backend } => old(pool)@.release(backend as int, connection),
            _ => old(pool)@,
        },
{
    match action {
        SessionAction::Release { backend } => pool.return_connection(backend, connection),
        _ => {},
    }
}

} // verus!
