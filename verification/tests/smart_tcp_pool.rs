use tcp_balancer::domain::backend_conn::ConnString;
use tcp_balancer::domain::tcp_conn_pool::SmartTcpConnectionPool;
use tcp_balancer::infrastructure::smart_tcp_pool::SmartTcpConnPool;
use uuid::Uuid;

fn backends(count: u16) -> Vec<ConnString> {
    (0..count).map(|i| ConnString::new("127.0.0.1".to_string(), 8080 + i)).collect()
}

#[test]
fn smart_tcp_pool_constructor_test() {
    let pool = SmartTcpConnPool::new(vec![ConnString::new("127.0.0.1".to_string(), 8080)]);
    assert_eq!(pool.backends().len(), 1);
    assert_eq!(pool.backend_selector(), 0);
    assert_eq!(pool.assigned_count(), 0);
    assert_eq!(pool.last_seen_count(), 0);
}

#[test]
fn get_connection_test() {
    let mut pool = SmartTcpConnPool::new(vec![ConnString::new("127.0.0.1".to_string(), 8080)]);
    let user_id = Uuid::new_v4().as_u128();
    let backend = pool.get_connection(user_id).unwrap();
    assert_eq!(pool.backends()[backend].get_host(), "127.0.0.1");
    assert_eq!(pool.backends()[backend].get_port(), 8080);
    assert_eq!(pool.backends()[backend].address(), "127.0.0.1:8080");
}

#[test]
fn first_request_assigns_and_puts_on_record() {
    let mut pool = SmartTcpConnPool::new(backends(3));
    let owner = Uuid::new_v4().as_u128();
    assert_eq!(pool.assigned_backend(owner), None);
    let backend = pool.get_connection(owner).unwrap();
    assert_eq!(backend, 0);
    assert_eq!(pool.assigned_backend(owner), Some(pool.backends()[0].get_uuid()));
    assert_eq!(pool.assigned_count(), 1);
    assert_eq!(pool.last_seen_count(), 1);
    assert_eq!(pool.backend_selector(), 1);
}

#[test]
fn new_owners_are_dealt_out_in_turn() {
    let mut pool = SmartTcpConnPool::new(backends(3));
    let mut given = Vec::new();
    for owner in 0..7u128 {
        given.push(pool.get_connection(owner).unwrap());
    }
    assert_eq!(given, vec![0, 1, 2, 0, 1, 2, 0]);
    assert_eq!(pool.backend_selector(), 1);
    assert_eq!(pool.assigned_count(), 7);
    assert_eq!(pool.last_seen_count(), 7);
}

#[test]
fn an_owner_stays_on_its_backend_for_a_hundred_requests() {
    let mut pool = SmartTcpConnPool::new(backends(4));
    assert_eq!(pool.get_connection(1000).unwrap(), 0);
    let owner = Uuid::new_v4().as_u128();
    let first = pool.get_connection(owner).unwrap();
    assert_eq!(first, 1);
    for round in 0..100u128 {
        assert_eq!(pool.get_connection(2000 + round).unwrap(), (2 + round as usize) % 4);
        assert_eq!(pool.get_connection(owner).unwrap(), first);
        assert_eq!(pool.assigned_backend(owner), Some(pool.backends()[first].get_uuid()));
    }
    assert_eq!(pool.assigned_count(), 102);
}

#[test]
fn a_repeated_request_changes_nothing() {
    let mut pool = SmartTcpConnPool::new(backends(2));
    assert_eq!(pool.get_connection(7).unwrap(), 0);
    for _ in 0..10 {
        assert_eq!(pool.get_connection(7).unwrap(), 0);
        assert_eq!(pool.backend_selector(), 1);
        assert_eq!(pool.assigned_count(), 1);
        assert_eq!(pool.last_seen_count(), 1);
    }
    assert_eq!(pool.get_connection(8).unwrap(), 1);
    assert_eq!(pool.backend_selector(), 0);
}

#[test]
fn a_single_backend_serves_every_owner() {
    let mut pool = SmartTcpConnPool::new(backends(1));
    for owner in 0..5u128 {
        assert_eq!(pool.get_connection(owner).unwrap(), 0);
        assert_eq!(pool.backend_selector(), 0);
    }
}

#[test]
fn backends_at_one_address_are_told_apart() {
    let twins = vec![
        ConnString::new("127.0.0.1".to_string(), 8080),
        ConnString::new("127.0.0.1".to_string(), 8080),
    ];
    let second = twins[1].get_uuid();
    let mut pool = SmartTcpConnPool::new(twins);
    assert_eq!(pool.get_connection(1).unwrap(), 0);
    assert_eq!(pool.get_connection(2).unwrap(), 1);
    assert_eq!(pool.assigned_backend(2), Some(second));
    assert_eq!(pool.get_connection(2).unwrap(), 1);
}

#[test]
fn a_retry_goes_to_the_same_backend() {
    let mut pool = SmartTcpConnPool::new(backends(2));
    let owner = Uuid::new_v4().as_u128();
    let backend = pool.get_connection(owner).unwrap();
    let retried = pool.get_connection(owner).unwrap();
    assert_eq!(retried, backend);
    assert_eq!(pool.assigned_count(), 1);
    assert_eq!(pool.backend_selector(), 1);
}
