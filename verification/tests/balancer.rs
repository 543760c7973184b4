use tcp_balancer::domain::backend_conn::ConnString;
use tcp_balancer::domain::request::Status;
use tcp_balancer::domain::tcp_conn_pool::{Acquired, FastTcpPool};
use tcp_balancer::infrastructure::fast_tcp_pool::ConnectionPool;
use tcp_balancer::proxy::load_balancer::{AcceptLoop, SessionId, IdScheme};
use tcp_balancer::proxy::session::{
    handle_connection, settle, FailureCause, Session, SessionAction, SessionEvent,
};

/// A connection as these tests see it: the backend it goes to and the number
/// under which it was opened.
#[derive(Debug, PartialEq, Eq)]
struct Stream {
    peer: String,
    local: u32,
}

/// A balancer without sockets: the backends that can be reached are listed,
/// and every dial to another one fails.
struct Harness {
    pool: ConnectionPool<Stream>,
    reachable: Vec<String>,
    opened: u32,
}

impl Harness {
    fn new(backends: Vec<ConnString>, max_pool_size: usize) -> Harness {
        let reachable = backends.iter().map(|b| b.address()).collect();
        Harness { pool: ConnectionPool::new(backends, max_pool_size), reachable, opened: 0 }
    }

    fn connect(&mut self, address: &str) -> Option<Stream> {
        if self.reachable.iter().any(|a| a == address) {
            self.opened += 1;
            Some(Stream { peer: address.to_string(), local: self.opened })
        } else {
            None
        }
    }

    fn get_connection(&mut self, session: u64) -> Option<(usize, Stream)> {
        match self.pool.get_connection(session) {
            Acquired::Reused { backend, connection } => Some((backend, connection)),
            Acquired::Dial { backend } => {
                let address = self.pool.backends()[backend].address();
                self.connect(&address).map(|stream| (backend, stream))
            }
            Acquired::Unavailable => None,
        }
    }
}

#[test]
fn load_balancer_get_connection_round_robin_test() {
    let addr1 = "127.0.0.1:40001";
    let addr2 = "127.0.0.1:40002";
    let backends = vec![
        ConnString::new_from_address(addr1).unwrap(),
        ConnString::new_from_address(addr2).unwrap(),
    ];
    let mut balancer = Harness::new(backends, 10);

    let (_, conn1) = balancer.get_connection(1).unwrap();
    assert_eq!(conn1.peer, addr1);

    let (_, conn2) = balancer.get_connection(2).unwrap();
    assert_eq!(conn2.peer, addr2);

    let (_, conn3) = balancer.get_connection(3).unwrap();
    assert_eq!(conn3.peer, addr1);
}

#[test]
fn load_balancer_return_connection_test() {
    let addr = "127.0.0.1:40001";
    let backends = vec![ConnString::new_from_address(addr).unwrap()];
    let mut balancer = Harness::new(backends, 10);

    let stream = balancer.connect(addr).unwrap();
    balancer.pool.return_connection(0, stream);

    assert_eq!(balancer.pool.idle_count(0), 1);
}

#[test]
fn load_balancer_return_connection_respects_max_pool_size_test() {
    let addr = "127.0.0.1:40001";
    let backends = vec![ConnString::new_from_address(addr).unwrap()];
    let mut balancer = Harness::new(backends, 2);

    for _ in 0..3 {
        let stream = balancer.connect(addr).unwrap();
        balancer.pool.return_connection(0, stream);
    }

    assert_eq!(balancer.pool.idle_count(0), 2);
}

#[test]
fn load_balancer_get_connection_reuses_pooled_connection_test() {
    let addr = "127.0.0.1:40001";
    let backends = vec![ConnString::new_from_address(addr).unwrap()];
    let mut balancer = Harness::new(backends, 10);

    let stream = balancer.connect(addr).unwrap();
    let local_addr = stream.local;
    balancer.pool.return_connection(0, stream);

    let (_, reused_stream) = balancer.get_connection(1).unwrap();
    assert_eq!(reused_stream.local, local_addr);
    assert_eq!(balancer.opened, 1);
}

#[test]
fn load_balancer_get_connection_creates_new_when_pool_empty_test() {
    let addr = "127.0.0.1:40001";
    let backends = vec![ConnString::new_from_address(addr).unwrap()];
    let mut balancer = Harness::new(backends, 10);

    let (_, conn) = balancer.get_connection(1).unwrap();
    assert_eq!(conn.peer, addr);
    assert_eq!(balancer.opened, 1);

    assert_eq!(balancer.pool.idle_count(0), 0);
}

#[test]
fn load_balancer_concurrent_get_connection_test() {
    let addr = "127.0.0.1:40001";
    let backends = vec![ConnString::new_from_address(addr).unwrap()];
    let mut balancer = Harness::new(backends, 10);

    let mut handles = vec![];
    for i in 0..10 {
        handles.push(balancer.get_connection(i));
    }

    let mut success_count = 0;
    for handle in handles {
        if handle.is_some() {
            success_count += 1;
        }
    }

    assert_eq!(success_count, 10);
}

#[test]
fn load_balancer_get_connection_handles_invalid_backend_test() {
    let backends = vec![ConnString::new("127.0.0.1".to_string(), 9999)];
    let mut balancer = Harness::new(backends, 10);
    balancer.reachable.clear();

    let result = balancer.get_connection(1);
    assert!(result.is_none());
}

#[test]
fn reuse_serves_at_most_what_the_queues_hold() {
    let backends = vec![
        ConnString::new("127.0.0.1".to_string(), 40001),
        ConnString::new("127.0.0.1".to_string(), 40002),
        ConnString::new("127.0.0.1".to_string(), 40003),
    ];
    let mut balancer = Harness::new(backends, 2);
    for backend in 0..3 {
        for _ in 0..5 {
            let address = balancer.pool.backends()[backend].address();
            let stream = balancer.connect(&address).unwrap();
            balancer.pool.return_connection(backend, stream);
        }
    }
    balancer.reachable.clear();
    let mut served = 0;
    for session in 0..20 {
        if balancer.get_connection(session).is_some() {
            served += 1;
        }
    }
    assert_eq!(served, 3 * 2);
}

/// Runs one session to its end and gives back how it ended.
fn run_session(balancer: &mut Harness, id: SessionId, relay: SessionEvent) -> Session {
    let mut session = Session::start(id, "127.0.0.1:40001".to_string(), 30);
    let number = match id {
        SessionId::Request(number) => number,
        SessionId::Owner(_) => 0,
    };
    let lease = balancer.get_connection(number);
    let event = match lease {
        Some((backend, _)) => SessionEvent::BackendAcquired { backend },
        None => SessionEvent::BackendUnavailable,
    };
    match (lease, handle_connection(&mut session, event)) {
        (Some((backend, stream)), SessionAction::Relay { deadline_secs }) => {
            assert_eq!(deadline_secs, 30);
            assert_eq!(session.backend(), Some(backend));
            let action = handle_connection(&mut session, relay);
            settle(&mut balancer.pool, stream, action);
        }
        (None, SessionAction::Close) => {}
        (_, action) => panic!("unexpected answer {:?}", action),
    }
    session
}

#[test]
fn accepted_connections_are_served_in_turn_and_connections_are_reused() {
    let backends = vec![
        ConnString::new("127.0.0.1".to_string(), 40001),
        ConnString::new("127.0.0.1".to_string(), 40002),
    ];
    let mut balancer = Harness::new(backends, 10);
    let mut accept_loop = AcceptLoop::start(true, IdScheme::Numbered).unwrap();
    let done = SessionEvent::RelayFinished { sent: 3, received: 4, elapsed_nanos: 5 };

    for round in 0..6u64 {
        assert_eq!(accept_loop.on_accept(false), None);
        let id = accept_loop.on_accept(true).unwrap();
        assert_eq!(id, SessionId::Request(round));
        let session = run_session(&mut balancer, id, done);
        assert_eq!(session.request().get_status(), &Status::Completed);
        assert_eq!(session.request().get_bytes(), Some(7));
        assert_eq!(session.request().get_time_taken(), Some(5));
    }
    assert_eq!(balancer.opened, 2);
    assert_eq!(balancer.pool.idle_count(0), 1);
    assert_eq!(balancer.pool.idle_count(1), 1);
}

#[test]
fn a_connection_of_a_failed_session_is_never_handed_out_again() {
    let backends = vec![ConnString::new("127.0.0.1".to_string(), 40001)];
    let mut balancer = Harness::new(backends, 10);
    let done = SessionEvent::RelayFinished { sent: 0, received: 0, elapsed_nanos: 0 };

    let session = run_session(&mut balancer, SessionId::Request(0), SessionEvent::RelayTimedOut);
    assert_eq!(session.failure(), Some(FailureCause::Timeout));
    assert_eq!(balancer.pool.idle_count(0), 0);

    let session = run_session(&mut balancer, SessionId::Request(1), SessionEvent::RelayFailed);
    assert_eq!(session.failure(), Some(FailureCause::RelayError));
    assert_eq!(balancer.pool.idle_count(0), 0);

    let session = run_session(&mut balancer, SessionId::Request(2), done);
    assert_eq!(session.failure(), None);
    assert_eq!(balancer.pool.idle_count(0), 1);
    assert_eq!(balancer.opened, 3);

    let session = run_session(&mut balancer, SessionId::Request(3), done);
    assert_eq!(session.request().get_status(), &Status::Completed);
    assert_eq!(balancer.opened, 3);
}

#[test]
fn an_unreachable_backend_fails_the_session_and_no_other_is_tried() {
    let backends = vec![
        ConnString::new("127.0.0.1".to_string(), 40001),
        ConnString::new("127.0.0.1".to_string(), 40002),
    ];
    let mut balancer = Harness::new(backends, 10);
    balancer.reachable.remove(0);
    let done = SessionEvent::RelayFinished { sent: 1, received: 1, elapsed_nanos: 1 };

    let session = run_session(&mut balancer, SessionId::Request(0), done);
    assert_eq!(session.request().get_status(), &Status::Failed);
    assert_eq!(session.failure(), Some(FailureCause::BackendUnavailable));
    assert_eq!(balancer.opened, 0);

    let session = run_session(&mut balancer, SessionId::Request(1), done);
    assert_eq!(session.request().get_status(), &Status::Completed);
    assert_eq!(balancer.opened, 1);
}
