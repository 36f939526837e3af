use trojan_relay::addr::{Address, Endpoint, IpAddress};
use trojan_relay::backend::{DEFAULT_TCP_IDLE_SECS, DEFAULT_UDP_IDLE_SECS};
use trojan_relay::codec::{generate_endpoint, generate_request, CONNECT, UDP_ASSOCIATE};
use trojan_relay::conn::{Connection, HandshakeAction, SetupAction, Status};
use trojan_relay::tls::{TlsConn, TlsStatus};

const SECRET: &[u8] = b"ea09ae9cc6768c50fcee903ed054556e5bfc8347907f12598aa24193";
const WRONG_SECRET: &[u8] = b"98348c0fc64c8e2bb47313a34ba6d9568c61beac59b61b61ac39c1ba";

fn back_addr() -> Endpoint {
    Endpoint {
        ip: IpAddress::V4([127, 0, 0, 1]),
        port: 8080,
    }
}

fn fresh_conn(index: usize) -> Connection {
    Connection::new(index, TlsConn::new(TlsStatus::Established), 1000)
}

fn preamble(secret: &[u8], command: u8, address: &Address, payload: &[u8]) -> Vec<u8> {
    let mut buffer = Vec::new();
    generate_request(&mut buffer, secret, command, address);
    buffer.extend_from_slice(payload);
    buffer
}

#[test]
fn connect_to_ipv4_literal_forwards_payload() {
    let target = Endpoint {
        ip: IpAddress::V4([1, 2, 3, 4]),
        port: 80,
    };
    let payload = b"GET / HTTP/1.1\r\n\r\n";
    let bytes = preamble(SECRET, CONNECT, &Address::Socket(target), payload);

    let mut conn = fresh_conn(3);
    let outcome = conn.handshake(&bytes, SECRET, back_addr());
    assert!(matches!(outcome.action, HandshakeAction::Ready));
    assert_eq!(outcome.payload.as_slice(), payload);
    assert_eq!(conn.status, Status::DnsWait);
    assert_eq!(conn.command, CONNECT);
    assert_eq!(conn.target_addr, Some(target));

    match conn.next_setup_action() {
        SetupAction::ConnectTcp(ep) => assert_eq!(ep, target),
        _ => panic!("a known target must ask for a TCP connect"),
    }
    conn.attach_tcp_backend(DEFAULT_TCP_IDLE_SECS);
    assert_eq!(conn.status, Status::TcpForward);
    assert!(conn.backend.is_some());

    // The upstream socket sees exactly the payload bytes, in order.
    conn.forward_to_upstream(&outcome.payload);
    assert_eq!(conn.upstream_pending().as_slice(), payload);
    conn.upstream_written(5);
    assert_eq!(conn.upstream_pending().as_slice(), &payload[5..]);
    conn.forward_to_upstream(b" more");
    let mut expected = payload[5..].to_vec();
    expected.extend_from_slice(b" more");
    assert_eq!(conn.upstream_pending().as_slice(), expected.as_slice());
}

#[test]
fn connect_to_domain_waits_for_dns() {
    let bytes = preamble(
        SECRET,
        CONNECT,
        &Address::Domain(b"example.test".to_vec(), 443),
        b"",
    );
    let mut conn = fresh_conn(3);
    let outcome = conn.handshake(&bytes, SECRET, back_addr());
    match &outcome.action {
        HandshakeAction::Resolve(domain) => assert_eq!(domain.as_slice(), b"example.test"),
        _ => panic!("a CONNECT to a domain must resolve it"),
    }
    assert!(conn.resolving);
    assert!(matches!(conn.next_setup_action(), SetupAction::WaitDns));

    conn.on_dns_result(Some(IpAddress::V4([10, 0, 0, 1])));
    let expected = Endpoint {
        ip: IpAddress::V4([10, 0, 0, 1]),
        port: 443,
    };
    assert_eq!(conn.target_addr, Some(expected));
    match conn.next_setup_action() {
        SetupAction::ConnectTcp(ep) => assert_eq!(ep, expected),
        _ => panic!("a resolved target must ask for a TCP connect"),
    }
}

#[test]
fn dns_failure_closes_the_connection() {
    let bytes = preamble(
        SECRET,
        CONNECT,
        &Address::Domain(b"nx.test".to_vec(), 443),
        b"",
    );
    let mut conn = fresh_conn(3);
    let outcome = conn.handshake(&bytes, SECRET, back_addr());
    assert!(matches!(outcome.action, HandshakeAction::Resolve(_)));

    conn.on_dns_result(None);
    assert!(conn.closing);
    assert_eq!(conn.target_addr, None);
    assert!(conn.backend.is_none());
    assert!(matches!(conn.next_setup_action(), SetupAction::Abort));
    assert!(!conn.is_closed());
    conn.close_now();
    assert!(conn.is_closed());
}

#[test]
fn wrong_secret_falls_back_verbatim() {
    let bytes = preamble(
        WRONG_SECRET,
        CONNECT,
        &Address::Socket(Endpoint {
            ip: IpAddress::V4([1, 2, 3, 4]),
            port: 80,
        }),
        b"GET / HTTP/1.0\r\n\r\n",
    );
    let mut conn = fresh_conn(3);
    let outcome = conn.handshake(&bytes, SECRET, back_addr());
    // Everything received so far goes to the fallback upstream, untouched.
    assert!(matches!(outcome.action, HandshakeAction::Ready));
    assert_eq!(outcome.payload, bytes);
    assert_eq!(conn.command, CONNECT);
    assert_eq!(conn.sock5_addr, Address::Unset);
    assert_eq!(conn.target_addr, Some(back_addr()));
}

#[test]
fn udp_associate_splits_frames() {
    let bytes = preamble(
        SECRET,
        UDP_ASSOCIATE,
        &Address::Socket(Endpoint {
            ip: IpAddress::V4([0, 0, 0, 0]),
            port: 0,
        }),
        b"",
    );
    let mut conn = fresh_conn(3);
    let outcome = conn.handshake(&bytes, SECRET, back_addr());
    assert!(matches!(outcome.action, HandshakeAction::Ready));
    assert!(matches!(conn.next_setup_action(), SetupAction::BindUdp));
    conn.attach_udp_backend(DEFAULT_UDP_IDLE_SECS);
    assert_eq!(conn.status, Status::UdpForward);

    let resolver_target = Endpoint {
        ip: IpAddress::V4([9, 9, 9, 9]),
        port: 53,
    };
    let query = [0x5au8; 30];
    let mut frame = Vec::new();
    generate_endpoint(&mut frame, &resolver_target, query.len() as u16);
    frame.extend_from_slice(&query);

    let datagrams = conn.feed_udp(&frame);
    assert_eq!(datagrams.len(), 1);
    assert_eq!(datagrams[0].endpoint, resolver_target);
    assert_eq!(datagrams[0].payload.as_slice(), &query);
    assert!(!conn.closing);

    // A malformed frame afterwards shuts the flow down.
    let datagrams = conn.feed_udp(&[7, 7, 7]);
    assert!(datagrams.is_empty());
    assert!(conn.closing);
}

#[test]
fn udp_frames_split_across_reads() {
    let mut conn = fresh_conn(3);
    let bytes = preamble(
        SECRET,
        UDP_ASSOCIATE,
        &Address::Socket(Endpoint {
            ip: IpAddress::V4([0, 0, 0, 0]),
            port: 0,
        }),
        b"",
    );
    conn.handshake(&bytes, SECRET, back_addr());
    conn.attach_udp_backend(DEFAULT_UDP_IDLE_SECS);

    let target = Endpoint {
        ip: IpAddress::V4([9, 9, 9, 9]),
        port: 53,
    };
    let mut frame = Vec::new();
    generate_endpoint(&mut frame, &target, 4);
    frame.extend_from_slice(b"wxyz");

    let first = conn.feed_udp(&frame[..6]);
    assert!(first.is_empty());
    let second = conn.feed_udp(&frame[6..]);
    assert_eq!(second.len(), 1);
    assert_eq!(second[0].payload.as_slice(), b"wxyz");
}

#[test]
fn event_routing_follows_parity_and_status() {
    let mut conn = fresh_conn(5);
    // Proxy-side token is even: readable drives the proxy read path.
    let route = conn.ready(10, true, false, 2000);
    assert!(route.read_proxy);
    assert!(!route.send_proxy);
    assert!(!route.backend_readable);
    assert!(!route.dns_ready);
    assert_eq!(conn.last_active_time, 2000);

    // Backend-side token while handshaking routes nowhere.
    let route = conn.ready(11, true, true, 2001);
    assert!(!route.read_proxy && !route.backend_readable && !route.dns_ready);

    // In DNS wait, a backend-side readable event is the resolver's.
    let bytes = preamble(
        SECRET,
        CONNECT,
        &Address::Domain(b"example.test".to_vec(), 443),
        b"",
    );
    conn.handshake(&bytes, SECRET, back_addr());
    let route = conn.ready(11, true, false, 2002);
    assert!(route.dns_ready);
    assert!(!route.backend_readable);

    // While forwarding, backend events go to the backend.
    conn.on_dns_result(Some(IpAddress::V4([10, 0, 0, 1])));
    conn.attach_tcp_backend(DEFAULT_TCP_IDLE_SECS);
    let route = conn.ready(11, true, true, 2003);
    assert!(route.backend_readable && route.backend_writable);
    assert!(!route.dns_ready);
    assert_eq!(conn.last_active_time, 2003);
}

#[test]
fn idle_timeout_is_judged_by_the_backend() {
    let mut conn = fresh_conn(3);
    // No backend: never timed out.
    assert!(!conn.timeout(u64::MAX));

    let bytes = preamble(
        SECRET,
        CONNECT,
        &Address::Socket(Endpoint {
            ip: IpAddress::V4([1, 2, 3, 4]),
            port: 80,
        }),
        b"",
    );
    conn.handshake(&bytes, SECRET, back_addr());
    conn.attach_tcp_backend(DEFAULT_TCP_IDLE_SECS);
    conn.ready(6, true, false, 1000);
    assert!(!conn.timeout(1000 + DEFAULT_TCP_IDLE_SECS));
    assert!(conn.timeout(1000 + DEFAULT_TCP_IDLE_SECS + 1));
}

#[test]
fn backend_eof_asks_for_teardown() {
    let mut conn = fresh_conn(3);
    let bytes = preamble(
        SECRET,
        CONNECT,
        &Address::Socket(Endpoint {
            ip: IpAddress::V4([1, 2, 3, 4]),
            port: 80,
        }),
        b"",
    );
    conn.handshake(&bytes, SECRET, back_addr());
    conn.attach_tcp_backend(DEFAULT_TCP_IDLE_SECS);
    assert!(!conn.should_close());
    conn.set_backend_closing();
    assert!(conn.should_close());
}
