use trojan_relay::addr::{Address, Endpoint, IpAddress};
use trojan_relay::codec::{
    generate_endpoint, generate_request, parse_endpoint, parse_request, split_frames, u16_from_be,
    UdpParseResultEndpoint, ATYP_V4, CONNECT, CR, LF, UDP_ASSOCIATE,
};

const SECRET: &[u8] = b"ea09ae9cc6768c50fcee903ed054556e5bfc8347907f12598aa24193";
const WRONG_SECRET: &[u8] = b"98348c0fc64c8e2bb47313a34ba6d9568c61beac59b61b61ac39c1ba";

fn preamble(secret: &[u8], command: u8, address: &Address, payload: &[u8]) -> Vec<u8> {
    let mut buffer = Vec::new();
    generate_request(&mut buffer, secret, command, address);
    buffer.extend_from_slice(payload);
    buffer
}

#[test]
fn u16_big_endian_exact() {
    assert_eq!(u16_from_be(1, 44), 300);
    assert_eq!(u16_from_be(0, 80), 80);
    assert_eq!(u16_from_be(1, 187), 443);
    assert_eq!(u16_from_be(255, 255), 65535);
}

#[test]
fn connect_ipv4_literal_round_trip() {
    let address = Address::Socket(Endpoint {
        ip: IpAddress::V4([1, 2, 3, 4]),
        port: 80,
    });
    let payload = b"GET / HTTP/1.1\r\n\r\n";
    let bytes = preamble(SECRET, CONNECT, &address, payload);
    // 56 digest + CRLF + CMD + ATYP + 4 addr + 2 port + CRLF
    assert_eq!(bytes.len(), 68 + payload.len());
    assert_eq!(bytes[56], CR);
    assert_eq!(bytes[57], LF);
    assert_eq!(bytes[58], CONNECT);
    assert_eq!(bytes[59], ATYP_V4);
    assert_eq!(&bytes[60..64], &[1, 2, 3, 4]);
    assert_eq!(&bytes[64..66], &[0, 80]);

    let req = parse_request(&bytes, SECRET).expect("well-formed preamble must parse");
    assert_eq!(req.command, CONNECT);
    assert_eq!(req.address, address);
    assert_eq!(req.payload.as_slice(), payload);
}

#[test]
fn domain_round_trip() {
    let address = Address::Domain(b"example.test".to_vec(), 443);
    let bytes = preamble(SECRET, CONNECT, &address, b"");
    let req = parse_request(&bytes, SECRET).expect("domain preamble must parse");
    assert_eq!(req.command, CONNECT);
    assert_eq!(req.address, address);
    assert!(req.payload.is_empty());
}

#[test]
fn ipv6_round_trip() {
    let ip = IpAddress::V6([0, 1, 2, 3, 4, 5, 6, 7, 8, 9, 10, 11, 12, 13, 14, 15]);
    let address = Address::Socket(Endpoint { ip, port: 8443 });
    let bytes = preamble(SECRET, UDP_ASSOCIATE, &address, b"tail");
    let req = parse_request(&bytes, SECRET).expect("ipv6 preamble must parse");
    assert_eq!(req.command, UDP_ASSOCIATE);
    assert_eq!(req.address, address);
    assert_eq!(req.payload.as_slice(), b"tail");
}

#[test]
fn wrong_secret_is_rejected() {
    let address = Address::Socket(Endpoint {
        ip: IpAddress::V4([1, 2, 3, 4]),
        port: 80,
    });
    let bytes = preamble(WRONG_SECRET, CONNECT, &address, b"GET / HTTP/1.0\r\n\r\n");
    assert!(parse_request(&bytes, SECRET).is_none());
}

#[test]
fn short_buffer_is_rejected() {
    assert!(parse_request(&[], SECRET).is_none());
    assert!(parse_request(SECRET, SECRET).is_none());
    // A full IPv4 head cut one byte short.
    let address = Address::Socket(Endpoint {
        ip: IpAddress::V4([1, 2, 3, 4]),
        port: 80,
    });
    let bytes = preamble(SECRET, CONNECT, &address, b"");
    assert!(parse_request(&bytes[..67], SECRET).is_none());
}

#[test]
fn misplaced_crlf_is_rejected() {
    let address = Address::Socket(Endpoint {
        ip: IpAddress::V4([1, 2, 3, 4]),
        port: 80,
    });
    let mut bytes = preamble(SECRET, CONNECT, &address, b"");
    bytes[56] = b'x';
    assert!(parse_request(&bytes, SECRET).is_none());
    let mut bytes2 = preamble(SECRET, CONNECT, &address, b"");
    bytes2[66] = b'x';
    assert!(parse_request(&bytes2, SECRET).is_none());
}

#[test]
fn unknown_atyp_is_rejected() {
    let address = Address::Socket(Endpoint {
        ip: IpAddress::V4([1, 2, 3, 4]),
        port: 80,
    });
    let mut bytes = preamble(SECRET, CONNECT, &address, b"");
    bytes[59] = 2;
    assert!(parse_request(&bytes, SECRET).is_none());
}

#[test]
fn udp_frame_round_trip() {
    let endpoint = Endpoint {
        ip: IpAddress::V4([9, 9, 9, 9]),
        port: 53,
    };
    let payload = [7u8; 30];
    let mut bytes = Vec::new();
    generate_endpoint(&mut bytes, &endpoint, payload.len() as u16);
    assert_eq!(bytes.len(), 11);
    assert_eq!(&bytes[..5], &[ATYP_V4, 9, 9, 9, 9]);
    assert_eq!(&bytes[5..9], &[0, 53, 0, 30]);
    assert_eq!(&bytes[9..], &[CR, LF]);
    bytes.extend_from_slice(&payload);

    match parse_endpoint(&bytes) {
        UdpParseResultEndpoint::Packet(p) => {
            assert_eq!(p.endpoint, endpoint);
            assert_eq!(p.head, 11);
            assert_eq!(p.length, 30);
            assert_eq!(&bytes[p.head..p.head + p.length], &payload);
        }
        _ => panic!("complete frame must parse as a packet"),
    }
}

#[test]
fn udp_frame_prefix_continues() {
    let endpoint = Endpoint {
        ip: IpAddress::V4([9, 9, 9, 9]),
        port: 53,
    };
    let mut bytes = Vec::new();
    generate_endpoint(&mut bytes, &endpoint, 30);
    bytes.extend_from_slice(&[1, 2, 3]);
    // Head promises 30 payload bytes; only 3 arrived.
    assert!(matches!(
        parse_endpoint(&bytes),
        UdpParseResultEndpoint::Continued
    ));
    // The bare head, cut inside the address, is also just a prefix.
    assert!(matches!(
        parse_endpoint(&bytes[..3]),
        UdpParseResultEndpoint::Continued
    ));
    assert!(matches!(
        parse_endpoint(&[]),
        UdpParseResultEndpoint::Continued
    ));
}

#[test]
fn udp_frame_violations() {
    // A domain ATYP cannot carry a literal endpoint.
    assert!(matches!(
        parse_endpoint(&[3, 1, 2, 3]),
        UdpParseResultEndpoint::InvalidProtocol
    ));
    let endpoint = Endpoint {
        ip: IpAddress::V4([9, 9, 9, 9]),
        port: 53,
    };
    let mut bytes = Vec::new();
    generate_endpoint(&mut bytes, &endpoint, 0);
    bytes[9] = b'x';
    assert!(matches!(
        parse_endpoint(&bytes),
        UdpParseResultEndpoint::InvalidProtocol
    ));
}

#[test]
fn split_frames_keeps_order_and_tail() {
    let first = Endpoint {
        ip: IpAddress::V4([9, 9, 9, 9]),
        port: 53,
    };
    let second = Endpoint {
        ip: IpAddress::V4([8, 8, 8, 8]),
        port: 443,
    };
    let mut stream = Vec::new();
    generate_endpoint(&mut stream, &first, 3);
    stream.extend_from_slice(b"abc");
    generate_endpoint(&mut stream, &second, 2);
    stream.extend_from_slice(b"xy");
    // A third frame arrives cut short.
    let mut partial = Vec::new();
    generate_endpoint(&mut partial, &first, 10);
    partial.truncate(4);
    stream.extend_from_slice(&partial);

    let outcome = split_frames(&stream);
    assert!(!outcome.invalid);
    assert_eq!(outcome.datagrams.len(), 2);
    assert_eq!(outcome.datagrams[0].endpoint, first);
    assert_eq!(outcome.datagrams[0].payload.as_slice(), b"abc");
    assert_eq!(outcome.datagrams[1].endpoint, second);
    assert_eq!(outcome.datagrams[1].payload.as_slice(), b"xy");
    assert_eq!(outcome.tail, partial);
}

#[test]
fn split_frames_reports_violation() {
    let first = Endpoint {
        ip: IpAddress::V4([9, 9, 9, 9]),
        port: 53,
    };
    let mut stream = Vec::new();
    generate_endpoint(&mut stream, &first, 1);
    stream.push(b'z');
    stream.extend_from_slice(&[7, 7, 7]); // unknown ATYP after a good frame
    let outcome = split_frames(&stream);
    assert!(outcome.invalid);
    assert_eq!(outcome.datagrams.len(), 1);
    assert_eq!(outcome.datagrams[0].payload.as_slice(), b"z");
}
