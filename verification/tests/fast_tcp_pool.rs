use tcp_balancer::domain::backend_conn::ConnString;
use tcp_balancer::domain::tcp_conn_pool::{Acquired, FastTcpPool};
use tcp_balancer::infrastructure::fast_tcp_pool::ConnectionPool;

fn backends(count: u16) -> Vec<ConnString> {
    (0..count).map(|i| ConnString::new("127.0.0.1".to_string(), 8080 + i)).collect()
}

fn dialled<C>(acquired: Acquired<C>) -> usize {
    match acquired {
        Acquired::Dial { backend } => backend,
        Acquired::Reused { .. } => panic!("a connection was reused"),
        Acquired::Unavailable => panic!("the pool served nothing"),
    }
}

fn reused<C>(acquired: Acquired<C>) -> (usize, C) {
    match acquired {
        Acquired::Reused { backend, connection } => (backend, connection),
        Acquired::Dial { .. } => panic!("the pool asked for a dial"),
        Acquired::Unavailable => panic!("the pool served nothing"),
    }
}

#[test]
fn fast_tcp_pool_constructor_test() {
    let backends = vec![
        ConnString::new("127.0.0.1".to_string(), 8080),
        ConnString::new("127.0.0.1".to_string(), 8081),
    ];
    let pool: ConnectionPool<u32> = ConnectionPool::new(backends.clone(), 10);

    assert_eq!(pool.backends().len(), 2);
    assert_eq!(pool.max_pool_size(), 10);
    assert_eq!(pool.current(), 0);
    assert_eq!(pool.queue_count(), 2);
}

#[test]
fn load_balancer_constructor_test() {
    let backends = vec![
        ConnString::new("127.0.0.1".to_string(), 8080),
        ConnString::new("127.0.0.1".to_string(), 8081),
    ];
    let pool: ConnectionPool<u32> = ConnectionPool::new(backends.clone(), 10);

    assert_eq!(pool.backends().len(), 2);
    assert_eq!(pool.max_pool_size(), 10);
    assert_eq!(pool.current(), 0);
    assert_eq!(pool.queue_count(), 2);
}

#[test]
fn new_pool_keeps_the_backends_in_order_and_has_empty_queues() {
    let list = backends(3);
    let ids: Vec<u128> = list.iter().map(|b| b.get_uuid()).collect();
    let pool: ConnectionPool<u32> = ConnectionPool::new(list, 4);
    let kept: Vec<u128> = pool.backends().iter().map(|b| b.get_uuid()).collect();
    assert_eq!(kept, ids);
    assert_eq!(pool.backends()[2].address(), "127.0.0.1:8082");
    for backend in 0..3 {
        assert_eq!(pool.idle_count(backend), 0);
    }
}

#[test]
fn pool_without_backends_can_be_made() {
    let pool: ConnectionPool<u32> = ConnectionPool::new(Vec::new(), 10);
    assert_eq!(pool.backends().len(), 0);
    assert_eq!(pool.queue_count(), 0);
    assert_eq!(pool.current(), 0);
}

#[test]
fn fast_tcp_pool_get_connection_round_robin_test() {
    let mut pool: ConnectionPool<u32> = ConnectionPool::new(backends(2), 10);

    assert_eq!(dialled(pool.get_connection(1)), 0);
    assert_eq!(dialled(pool.get_connection(2)), 1);
    assert_eq!(dialled(pool.get_connection(3)), 0);
}

#[test]
fn backends_are_selected_in_turn() {
    for count in 1..6u16 {
        let mut pool: ConnectionPool<u32> = ConnectionPool::new(backends(count), 10);
        for call in 0..40usize {
            assert_eq!(pool.current(), call);
            assert_eq!(dialled(pool.get_connection(0)), call % count as usize);
        }
        assert_eq!(pool.current(), 40);
    }
}

#[test]
fn selection_does_not_depend_on_the_session() {
    let mut pool: ConnectionPool<u32> = ConnectionPool::new(backends(3), 10);
    assert_eq!(dialled(pool.get_connection(u64::MAX)), 0);
    assert_eq!(dialled(pool.get_connection(0)), 1);
    assert_eq!(dialled(pool.get_connection(7)), 2);
    assert_eq!(dialled(pool.get_connection(7)), 0);
}

#[test]
fn selection_goes_on_in_turn_when_connections_are_reused() {
    let mut pool: ConnectionPool<u32> = ConnectionPool::new(backends(3), 10);
    pool.return_connection(1, 11);
    pool.return_connection(2, 22);
    assert_eq!(dialled(pool.get_connection(0)), 0);
    assert_eq!(reused(pool.get_connection(0)), (1, 11));
    assert_eq!(reused(pool.get_connection(0)), (2, 22));
    assert_eq!(dialled(pool.get_connection(0)), 0);
    assert_eq!(dialled(pool.get_connection(0)), 1);
    assert_eq!(dialled(pool.get_connection(0)), 2);
}

#[test]
fn fast_tcp_pool_return_connection_test() {
    let mut pool: ConnectionPool<u32> = ConnectionPool::new(backends(1), 10);

    pool.return_connection(0, 500);

    assert_eq!(pool.idle_count(0), 1);
}

#[test]
fn fast_tcp_pool_return_connection_respects_max_pool_size_test() {
    let mut pool: ConnectionPool<u32> = ConnectionPool::new(backends(1), 2);

    for stream in 0..3 {
        pool.return_connection(0, stream);
    }

    assert_eq!(pool.idle_count(0), 2);
}

#[test]
fn returns_beyond_the_cap_are_dropped_and_the_first_are_kept() {
    let mut pool: ConnectionPool<u32> = ConnectionPool::new(backends(1), 2);
    for stream in [10, 20, 30, 40] {
        pool.return_connection(0, stream);
        assert!(pool.idle_count(0) <= 2);
    }
    assert_eq!(pool.idle_count(0), 2);
    assert_eq!(reused(pool.get_connection(0)), (0, 10));
    assert_eq!(reused(pool.get_connection(0)), (0, 20));
    assert_eq!(dialled(pool.get_connection(0)), 0);
}

#[test]
fn a_pool_with_cap_zero_keeps_nothing() {
    let mut pool: ConnectionPool<u32> = ConnectionPool::new(backends(2), 0);
    pool.return_connection(0, 1);
    pool.return_connection(1, 2);
    assert_eq!(pool.idle_count(0), 0);
    assert_eq!(pool.idle_count(1), 0);
    assert_eq!(dialled(pool.get_connection(0)), 0);
    assert_eq!(dialled(pool.get_connection(0)), 1);
}

#[test]
fn the_cap_holds_for_each_backend_on_its_own() {
    let mut pool: ConnectionPool<u32> = ConnectionPool::new(backends(2), 1);
    pool.return_connection(0, 1);
    pool.return_connection(0, 2);
    pool.return_connection(1, 3);
    pool.return_connection(1, 4);
    assert_eq!(pool.idle_count(0), 1);
    assert_eq!(pool.idle_count(1), 1);
    assert_eq!(reused(pool.get_connection(0)), (0, 1));
    assert_eq!(reused(pool.get_connection(0)), (1, 3));
}

#[test]
fn fast_tcp_pool_get_connection_reuses_pooled_connection_test() {
    let mut pool: ConnectionPool<u32> = ConnectionPool::new(backends(1), 10);

    let stream: u32 = 4711;
    pool.return_connection(0, stream);

    let (backend, reused_stream) = reused(pool.get_connection(1));
    assert_eq!(backend, 0);
    assert_eq!(reused_stream, 4711);
    assert_eq!(pool.idle_count(0), 0);
}

#[test]
fn idle_connections_are_reused_oldest_first() {
    let mut pool: ConnectionPool<u32> = ConnectionPool::new(backends(1), 10);
    pool.return_connection(0, 1);
    pool.return_connection(0, 2);
    pool.return_connection(0, 3);
    assert_eq!(reused(pool.get_connection(0)), (0, 1));
    pool.return_connection(0, 4);
    assert_eq!(reused(pool.get_connection(0)), (0, 2));
    assert_eq!(reused(pool.get_connection(0)), (0, 3));
    assert_eq!(reused(pool.get_connection(0)), (0, 4));
    assert_eq!(dialled(pool.get_connection(0)), 0);
}

#[test]
fn fast_tcp_pool_get_connection_creates_new_when_pool_empty_test() {
    let mut pool: ConnectionPool<u32> = ConnectionPool::new(backends(1), 10);

    assert_eq!(dialled(pool.get_connection(1)), 0);
    assert_eq!(pool.backends()[0].address(), "127.0.0.1:8080");

    assert_eq!(pool.idle_count(0), 0);
}

#[test]
fn fast_tcp_pool_concurrent_get_connection_test() {
    let mut pool: ConnectionPool<u32> = ConnectionPool::new(backends(1), 10);

    let mut success_count = 0;
    for i in 0..10 {
        match pool.get_connection(i) {
            Acquired::Unavailable => {}
            _ => success_count += 1,
        }
    }

    assert_eq!(success_count, 10);
}

#[test]
fn a_released_connection_waits_for_the_turn_of_its_backend() {
    let mut pool: ConnectionPool<u32> = ConnectionPool::new(backends(3), 10);
    assert_eq!(dialled(pool.get_connection(0)), 0);
    pool.return_connection(0, 99);
    assert_eq!(dialled(pool.get_connection(0)), 1);
    assert_eq!(pool.idle_count(0), 1);
    assert_eq!(dialled(pool.get_connection(0)), 2);
    assert_eq!(pool.idle_count(0), 1);
    assert_eq!(reused(pool.get_connection(0)), (0, 99));
    assert_eq!(pool.idle_count(0), 0);
}

#[test]
fn two_backends_end_to_end() {
    let mut pool: ConnectionPool<String> = ConnectionPool::new(backends(2), 10);
    let mut order = Vec::new();
    let mut open = Vec::new();
    for session in 0..3 {
        let backend = dialled(pool.get_connection(session));
        order.push(backend);
        open.push(format!("connection {} to {}", session, pool.backends()[backend].address()));
    }
    assert_eq!(order, vec![0, 1, 0]);
    let first = open.remove(0);
    assert_eq!(first, "connection 0 to 127.0.0.1:8080");
    pool.return_connection(0, first);
    assert_eq!(dialled(pool.get_connection(3)), 1);
    let (backend, connection) = reused(pool.get_connection(4));
    assert_eq!(backend, 0);
    assert_eq!(connection, "connection 0 to 127.0.0.1:8080");
    assert_eq!(pool.idle_count(0), 0);
}

#[test]
fn fast_tcp_pool_get_connection_handles_invalid_backend_test() {
    let backends = vec![ConnString::new("127.0.0.1".to_string(), 9999)];
    let mut pool: ConnectionPool<u32> = ConnectionPool::new(backends, 10);

    let backend = dialled(pool.get_connection(1));
    assert_eq!(pool.backends()[backend].address(), "127.0.0.1:9999");
    assert_eq!(pool.idle_count(0), 0);
    assert_eq!(dialled(pool.get_connection(2)), 0);
}
