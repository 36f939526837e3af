use trojan_relay::addr::{Address, Endpoint, IpAddress};
use trojan_relay::backend::DEFAULT_TCP_IDLE_SECS;
use trojan_relay::codec::{generate_request, CONNECT};
use trojan_relay::conn::Connection;
use trojan_relay::registry::Registry;
use trojan_relay::tls::{TlsConn, TlsStatus};
use trojan_relay::token::{
    backend_token, is_backend_token, proxy_token, token_index, IndexAllocator, MAX_INDEX, MIN_INDEX,
};

const SECRET: &[u8] = b"ea09ae9cc6768c50fcee903ed054556e5bfc8347907f12598aa24193";

fn back_addr() -> Endpoint {
    Endpoint {
        ip: IpAddress::V4([127, 0, 0, 1]),
        port: 8080,
    }
}

fn forwarding_conn(index: usize, now: u64) -> Connection {
    let mut conn = Connection::new(index, TlsConn::new(TlsStatus::Established), now);
    let mut bytes = Vec::new();
    generate_request(
        &mut bytes,
        SECRET,
        CONNECT,
        &Address::Socket(Endpoint {
            ip: IpAddress::V4([1, 2, 3, 4]),
            port: 80,
        }),
    );
    conn.handshake(&bytes, SECRET, back_addr());
    conn.attach_tcp_backend(DEFAULT_TCP_IDLE_SECS);
    conn.ready(proxy_token(index), true, false, now);
    conn
}

#[test]
fn token_arithmetic() {
    assert_eq!(proxy_token(5), 10);
    assert_eq!(backend_token(5), 11);
    assert_eq!(token_index(10), 5);
    assert_eq!(token_index(11), 5);
    assert!(!is_backend_token(10));
    assert!(is_backend_token(11));
}

#[test]
fn indices_start_at_three_and_wrap() {
    let mut alloc = IndexAllocator::new();
    assert_eq!(alloc.next_index(), MIN_INDEX);
    assert_eq!(alloc.next_index(), MIN_INDEX + 1);
    let mut near_end = IndexAllocator { next: MAX_INDEX - 1 };
    assert_eq!(near_end.next_index(), MAX_INDEX - 1);
    assert_eq!(near_end.next_index(), MIN_INDEX);
}

#[test]
fn both_tokens_reach_the_owner() {
    let mut registry = Registry::new();
    let index = registry.next_index();
    registry.insert_conn(forwarding_conn(index, 1000));
    assert_eq!(registry.len(), 1);

    let conn = registry
        .take_conn(proxy_token(index))
        .expect("the proxy token must find its owner");
    assert_eq!(conn.index, index);
    registry.insert_conn(conn);

    let conn = registry
        .take_conn(backend_token(index))
        .expect("the backend token must find its owner");
    assert_eq!(conn.index, index);
    registry.insert_conn(conn);
    assert_eq!(registry.len(), 1);
}

#[test]
fn unowned_event_is_dropped_without_side_effects() {
    let mut registry = Registry::new();
    let index = registry.next_index();
    registry.insert_conn(forwarding_conn(index, 1000));

    // No connection owns index + 1: both of its tokens find nothing,
    // and the registry keeps its one connection.
    assert!(registry.take_conn(proxy_token(index + 1)).is_none());
    assert!(registry.take_conn(backend_token(index + 1)).is_none());
    assert_eq!(registry.len(), 1);
    assert!(registry.take_conn(proxy_token(index)).is_some());
}

#[test]
fn recycled_tokens_find_no_owner() {
    let mut registry = Registry::new();
    let index = registry.next_index();
    registry.insert_conn(forwarding_conn(index, 1000));

    let mut conn = registry.take_conn(proxy_token(index)).unwrap();
    conn.close_now();
    assert!(conn.is_closed());
    drop(conn);

    // The index is free again: stale events for either token are dropped.
    assert!(registry.take_conn(proxy_token(index)).is_none());
    assert!(registry.take_conn(backend_token(index)).is_none());
    assert_eq!(registry.len(), 0);
}

#[test]
fn idle_sweep_names_exactly_the_idle_connections() {
    let mut registry = Registry::new();
    let idle_index = registry.next_index();
    registry.insert_conn(forwarding_conn(idle_index, 1000));
    let busy_index = registry.next_index();
    registry.insert_conn(forwarding_conn(busy_index, 1000 + DEFAULT_TCP_IDLE_SECS));

    let now = 1000 + DEFAULT_TCP_IDLE_SECS + 1;
    let idle = registry.timed_out_indices(now);
    assert_eq!(idle, vec![idle_index]);

    // Tear the idle one down, as the sweep's caller does.
    for index in idle {
        let mut conn = registry.take_conn(proxy_token(index)).unwrap();
        conn.close_now();
        assert!(conn.is_closed());
    }
    assert_eq!(registry.len(), 1);
    assert!(registry.take_conn(proxy_token(busy_index)).is_some());
}

#[test]
fn replacing_a_wrapped_index_keeps_one_entry() {
    let mut registry = Registry::new();
    let index = registry.next_index();
    registry.insert_conn(forwarding_conn(index, 1000));
    registry.insert_conn(forwarding_conn(index, 2000));
    assert_eq!(registry.len(), 1);
    let conn = registry.take_conn(proxy_token(index)).unwrap();
    assert_eq!(conn.last_active_time, 2000);
}
