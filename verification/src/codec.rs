//! The Trojan wire codec: the request preamble sent once at stream start and
//! the per-datagram frames that carry UDP payloads inside the TLS stream.
//!
//! Preamble layout: 56 hex bytes of the shared-secret digest, CRLF, one
//! command byte, one ATYP byte, the address, a big-endian port, CRLF, then
//! the payload. Frame layout: ATYP, address, port, a big-endian length,
//! CRLF, then exactly `length` payload bytes.

use vstd::prelude::*;
use vstd::slice::{slice_subrange, slice_to_vec};

use crate::addr::{bytes_eq, Address, AddressModel, Endpoint, EndpointModel, IpAddress};

verus! {

/// Command byte of a TCP CONNECT request.
pub const CONNECT: u8 = 1;

/// Command byte of a UDP associate request.
pub const UDP_ASSOCIATE: u8 = 3;

/// ATYP byte of a literal IPv4 address.
pub const ATYP_V4: u8 = 1;

/// ATYP byte of a length-prefixed domain name.
pub const ATYP_DOMAIN: u8 = 3;

/// ATYP byte of a literal IPv6 address.
pub const ATYP_V6: u8 = 4;

/// Carriage return, first byte of each CRLF separator.
pub const CR: u8 = 13;

/// Line feed, second byte of each CRLF separator.
pub const LF: u8 = 10;

/// Length of the hex digest that authenticates a request.
pub const SECRET_LEN: usize = 56;

/// No buffer shorter than this can hold a preamble: digest, CRLF, command,
/// ATYP, port and final CRLF.
pub const MIN_REQUEST_LEN: usize = 64;

/// The value of a big-endian 16-bit field.
pub open spec fn spec_u16(hi: u8, lo: u8) -> u16 {
    (hi as int * 256 + lo as int) as u16
}

/// The two big-endian bytes of a 16-bit field.
pub open spec fn spec_u16_bytes(v: u16) -> Seq<u8> {
    seq![(v / 256) as u8, (v % 256) as u8]
}

/// The wire form of a literal endpoint: ATYP, address bytes, port.
pub open spec fn spec_encode_endpoint(ep: EndpointModel) -> Seq<u8> {
    seq![
        if ep.v4 {
            ATYP_V4
        } else {
            ATYP_V6
        },
    ] + ep.ip + spec_u16_bytes(ep.port)
}

/// The wire form of an address inside a preamble. `Unset` has no wire form
/// (see [`AddressModel::encodable`]).
pub open spec fn spec_encode_address(a: AddressModel) -> Seq<u8> {
    match a {
        AddressModel::Unset => Seq::empty(),
        AddressModel::Domain(name, port) => seq![ATYP_DOMAIN, name.len() as u8] + name
            + spec_u16_bytes(port),
        AddressModel::Socket(ep) => spec_encode_endpoint(ep),
    }
}

/// The full preamble head: everything before the payload.
pub open spec fn spec_encode_request_head(secret: Seq<u8>, command: u8, address: AddressModel) -> Seq<
    u8,
> {
    secret + seq![CR, LF, command] + spec_encode_address(address) + seq![CR, LF]
}

/// Reads a big-endian 16-bit field from its two bytes.
pub fn u16_from_be(hi: u8, lo: u8) -> (r: u16)
    ensures
        r == spec_u16(hi, lo),
{
    (hi as u16) * 256 + (lo as u16)
}

/// Appends all of `data` to `buffer`, in order.
pub fn push_bytes(buffer: &mut Vec<u8>, data: &[u8])
    ensures
        final (buffer)@ == old(buffer)@ + data@,
{
    let mut i: usize = 0;
    while i < data.len()
        invariant
            i <= data.len(),
            buffer@ == old(buffer)@ + data@.take(i as int),
        decreases data.len() - i,
    {
        buffer.push(data[i]);
        proof {
            assert(buffer@ =~= old(buffer)@ + data@.take(i + 1));
        }
        i += 1;
    }
    proof {
        assert(buffer@ =~= old(buffer)@ + data@);
    }
}

/// Appends a big-endian 16-bit field.
pub fn push_u16(buffer: &mut Vec<u8>, v: u16)
    ensures
        final (buffer)@ == old(buffer)@ + spec_u16_bytes(v),
{
    buffer.push((v / 256) as u8);
    buffer.push((v % 256) as u8);
    proof {
        assert(buffer@ =~= old(buffer)@ + spec_u16_bytes(v));
    }
}

/// Appends the wire form of a literal endpoint.
pub fn push_endpoint(buffer: &mut Vec<u8>, ep: &Endpoint)
    ensures
        final (buffer)@ == old(buffer)@ + spec_encode_endpoint(ep@),
{
    match &ep.ip {
        IpAddress::V4(bytes) => {
            buffer.push(ATYP_V4);
            push_bytes(buffer, bytes.as_slice());
        },
        IpAddress::V6(bytes) => {
            buffer.push(ATYP_V6);
            push_bytes(buffer, bytes.as_slice());
        },
    }
    push_u16(buffer, ep.port);
    proof {
        assert(buffer@ =~= old(buffer)@ + spec_encode_endpoint(ep@));
    }
}

/// Appends the wire form of an address.
pub fn push_address(buffer: &mut Vec<u8>, address: &Address)
    requires
        address.encodable(),
    ensures
        final (buffer)@ == old(buffer)@ + spec_encode_address(address@),
{
    match address {
        Address::Unset => {
            // Not encodable, so this arm is unreachable.
            vstd::pervasive::unreached::<()>()
        },
        Address::Domain(name, port) => {
            buffer.push(ATYP_DOMAIN);
            buffer.push(name.len() as u8);
            push_bytes(buffer, name.as_slice());
            push_u16(buffer, *port);
            proof {
                assert(buffer@ =~= old(buffer)@ + spec_encode_address(address@));
            }
        },
        Address::Socket(ep) => {
            push_endpoint(buffer, ep);
        },
    }
}

/// Appends a full preamble head: digest, CRLF, command, address, CRLF. The
/// caller appends the payload after it.
pub fn generate_request(buffer: &mut Vec<u8>, secret: &[u8], command: u8, address: &Address)
    requires
        address.encodable(),
    ensures
        final (buffer)@ == old(buffer)@ + spec_encode_request_head(secret@, command, address@),
{
    push_bytes(buffer, secret);
    buffer.push(CR);
    buffer.push(LF);
    buffer.push(command);
    push_address(buffer, address);
    buffer.push(CR);
    buffer.push(LF);
    proof {
        assert(buffer@ =~= old(buffer)@ + spec_encode_request_head(secret@, command, address@));
    }
}

/// A parsed Trojan request: the command, the destination, and whatever bytes
/// of the stream followed the preamble.
pub struct TrojanRequest {
    pub command: u8,
    pub address: Address,
    pub payload: Vec<u8>,
}

/// What a byte string means as a Trojan preamble, if anything: the command,
/// the destination, and the length of the head before the payload. `None`
/// exactly when the buffer is too short, the digest does not match, a CRLF is
/// misplaced, or the ATYP byte is unknown.
pub open spec fn spec_parse_request(b: Seq<u8>, secret: Seq<u8>) -> Option<(u8, AddressModel, int)> {
    if b.len() < MIN_REQUEST_LEN {
        None
    } else if b.subrange(0, SECRET_LEN as int) != secret {
        None
    } else if b[56] != CR || b[57] != LF {
        None
    } else if b[59] == ATYP_V4 {
        if b.len() < 68 {
            None
        } else if b[66] != CR || b[67] != LF {
            None
        } else {
            Some(
                (
                    b[58],
                    AddressModel::Socket(
                        EndpointModel { v4: true, ip: b.subrange(60, 64), port: spec_u16(b[64], b[65]) },
                    ),
                    68int,
                ),
            )
        }
    } else if b[59] == ATYP_V6 {
        if b.len() < 80 {
            None
        } else if b[78] != CR || b[79] != LF {
            None
        } else {
            Some(
                (
                    b[58],
                    AddressModel::Socket(
                        EndpointModel {
                            v4: false,
                            ip: b.subrange(60, 76),
                            port: spec_u16(b[76], b[77]),
                        },
                    ),
                    80int,
                ),
            )
        }
    } else if b[59] == ATYP_DOMAIN {
        let n = b[60] as int;
        if b.len() < 65 + n {
            None
        } else if b[63 + n] != CR || b[64 + n] != LF {
            None
        } else {
            Some(
                (b[58], AddressModel::Domain(b.subrange(61, 61 + n), spec_u16(b[61 + n], b[62 + n])), 65 + n),
            )
        }
    } else {
        None
    }
}

/// Relates what [`parse_request`] returned to [`spec_parse_request`]: on
/// success the command, address and payload are the parsed ones, and failure
/// happens exactly when the spec says so.
pub open spec fn parse_result_matches(r: Option<TrojanRequest>, b: Seq<u8>, secret: Seq<u8>) -> bool {
    match spec_parse_request(b, secret) {
        Some((command, address, head)) => {
            &&& r matches Some(req)
            &&& req.command == command
            &&& req.address@ == address
            &&& req.payload@ == b.skip(head)
        },
        None => r is None,
    }
}

/// Parses a Trojan preamble from the accumulated plaintext. A `None` result
/// consumes nothing: the caller treats the stream as plain traffic for the
/// fallback upstream.
pub fn parse_request(buffer: &[u8], secret: &[u8]) -> (r: Option<TrojanRequest>)
    ensures
        parse_result_matches(r, buffer@, secret@),
{
    if buffer.len() < MIN_REQUEST_LEN {
        return None;
    }
    if !bytes_eq(slice_subrange(buffer, 0, SECRET_LEN), secret) {
        return None;
    }
    if buffer[56] != CR || buffer[57] != LF {
        return None;
    }
    let command = buffer[58];
    let atyp = buffer[59];
    if atyp == ATYP_V4 {
        if buffer.len() < 68 {
            return None;
        }
        if buffer[66] != CR || buffer[67] != LF {
            return None;
        }
        let ip = IpAddress::V4([buffer[60], buffer[61], buffer[62], buffer[63]]);
        let port = u16_from_be(buffer[64], buffer[65]);
        let payload = slice_to_vec(slice_subrange(buffer, 68, buffer.len()));
        proof {
            assert(ip.spec_bytes() =~= buffer@.subrange(60, 64));
            assert(payload@ =~= buffer@.skip(68));
        }
        Some(TrojanRequest { command, address: Address::Socket(Endpoint { ip, port }), payload })
    } else if atyp == ATYP_V6 {
        if buffer.len() < 80 {
            return None;
        }
        if buffer[78] != CR || buffer[79] != LF {
            return None;
        }
        let ip = IpAddress::V6(
            [
                buffer[60],
                buffer[61],
                buffer[62],
                buffer[63],
                buffer[64],
                buffer[65],
                buffer[66],
                buffer[67],
                buffer[68],
                buffer[69],
                buffer[70],
                buffer[71],
                buffer[72],
                buffer[73],
                buffer[74],
                buffer[75],
            ],
        );
        let port = u16_from_be(buffer[76], buffer[77]);
        let payload = slice_to_vec(slice_subrange(buffer, 80, buffer.len()));
        proof {
            assert(ip.spec_bytes() =~= buffer@.subrange(60, 76));
            assert(payload@ =~= buffer@.skip(80));
        }
        Some(TrojanRequest { command, address: Address::Socket(Endpoint { ip, port }), payload })
    } else if atyp == ATYP_DOMAIN {
        let n = buffer[60] as usize;
        if buffer.len() < 65 + n {
            return None;
        }
        if buffer[63 + n] != CR || buffer[64 + n] != LF {
            return None;
        }
        let name = slice_to_vec(slice_subrange(buffer, 61, 61 + n));
        let port = u16_from_be(buffer[61 + n], buffer[62 + n]);
        let payload = slice_to_vec(slice_subrange(buffer, 65 + n, buffer.len()));
        proof {
            assert(payload@ =~= buffer@.skip(65 + n as int));
        }
        Some(TrojanRequest { command, address: Address::Domain(name, port), payload })
    } else {
        None
    }
}

/// Round trip of the preamble: a well-formed request, encoded and followed by
/// any payload, parses back to exactly the same command, address and payload.
pub proof fn lemma_request_round_trip(
    secret: Seq<u8>,
    command: u8,
    address: AddressModel,
    payload: Seq<u8>,
)
    requires
        secret.len() == SECRET_LEN,
        address.encodable(),
    ensures
        ({
            let head = spec_encode_request_head(secret, command, address);
            spec_parse_request(head + payload, secret) == Some(
                (command, address, head.len() as int),
            ) && (head + payload).skip(head.len() as int) == payload
        }),
{
    let head = spec_encode_request_head(secret, command, address);
    let b = head + payload;
    assert(b.subrange(0, SECRET_LEN as int) =~= secret);
    match address {
        AddressModel::Unset => {
            assert(false);
        },
        AddressModel::Domain(name, port) => {
            let n = name.len() as int;
            assert(head.len() == 65 + n);
            assert(b[59] == ATYP_DOMAIN && b[60] == n as u8);
            assert(b.subrange(61, 61 + n) =~= name);
            assert(b[61 + n] == (port / 256) as u8 && b[62 + n] == (port % 256) as u8);
            assert(spec_u16((port / 256) as u8, (port % 256) as u8) == port);
            assert(b[63 + n] == CR && b[64 + n] == LF);
        },
        AddressModel::Socket(ep) => {
            if ep.v4 {
                assert(head.len() == 68);
                assert(b[59] == ATYP_V4);
                assert(b.subrange(60, 64) =~= ep.ip);
                assert(spec_u16((ep.port / 256) as u8, (ep.port % 256) as u8) == ep.port);
                assert(b[66] == CR && b[67] == LF);
            } else {
                assert(head.len() == 80);
                assert(b[59] == ATYP_V6);
                assert(b.subrange(60, 76) =~= ep.ip);
                assert(spec_u16((ep.port / 256) as u8, (ep.port % 256) as u8) == ep.port);
                assert(b[78] == CR && b[79] == LF);
            }
        },
    }
    assert(b.skip(head.len() as int) =~= payload);
}

/// How a prefix of the TLS plaintext reads as a UDP frame: a complete packet,
/// a well-formed but still incomplete prefix, or a protocol violation.
pub enum SpecFrameParse {
    Packet { endpoint: EndpointModel, head: int, length: int },
    Continued,
    Invalid,
}

/// Reads one UDP frame from the front of `b`. The address family is fixed by
/// the first byte; an unknown ATYP or a misplaced CRLF is a violation, and
/// too few bytes to decide mean the frame is still arriving.
pub open spec fn spec_parse_frame(b: Seq<u8>) -> SpecFrameParse {
    if b.len() == 0 {
        SpecFrameParse::Continued
    } else if b[0] == ATYP_V4 {
        spec_parse_frame_body(b, true)
    } else if b[0] == ATYP_V6 {
        spec_parse_frame_body(b, false)
    } else {
        SpecFrameParse::Invalid
    }
}

/// The family-specific part of [`spec_parse_frame`]: address bytes, port,
/// payload length, CRLF, then `length` payload bytes.
pub open spec fn spec_parse_frame_body(b: Seq<u8>, v4: bool) -> SpecFrameParse {
    let alen: int = if v4 {
        4
    } else {
        16
    };
    if b.len() <= 5 + alen {
        SpecFrameParse::Continued
    } else if b[5 + alen] != CR {
        SpecFrameParse::Invalid
    } else if b.len() == 6 + alen {
        SpecFrameParse::Continued
    } else if b[6 + alen] != LF {
        SpecFrameParse::Invalid
    } else {
        let length = spec_u16(b[3 + alen], b[4 + alen]) as int;
        if b.len() < 7 + alen + length {
            SpecFrameParse::Continued
        } else {
            SpecFrameParse::Packet {
                endpoint: EndpointModel {
                    v4,
                    ip: b.subrange(1, 1 + alen),
                    port: spec_u16(b[1 + alen], b[2 + alen]),
                },
                head: 7 + alen,
                length,
            }
        }
    }
}

/// A complete packet sits inside the buffer it was parsed from.
pub proof fn lemma_frame_packet_bounds(b: Seq<u8>)
    requires
        spec_parse_frame(b) is Packet,
    ensures
        0 < spec_parse_frame(b)->Packet_head,
        spec_parse_frame(b)->Packet_head + spec_parse_frame(b)->Packet_length <= b.len(),
        spec_parse_frame(b)->Packet_endpoint.wf(),
{
}

/// A complete UDP frame: the source or destination endpoint, the length of
/// the frame head, and the payload length. The payload occupies
/// `head .. head + length` of the parsed buffer.
pub struct UdpPacket {
    pub endpoint: Endpoint,
    pub head: usize,
    pub length: usize,
}

/// Result of reading one UDP frame from accumulated plaintext.
pub enum UdpParseResultEndpoint {
    Packet(UdpPacket),
    Continued,
    InvalidProtocol,
}

/// Relates what [`parse_endpoint`] returned to [`spec_parse_frame`].
pub open spec fn frame_result_matches(r: UdpParseResultEndpoint, b: Seq<u8>) -> bool {
    match spec_parse_frame(b) {
        SpecFrameParse::Packet { endpoint, head, length } => {
            &&& r matches UdpParseResultEndpoint::Packet(p)
            &&& p.endpoint@ == endpoint
            &&& p.head == head
            &&& p.length == length
        },
        SpecFrameParse::Continued => r is Continued,
        SpecFrameParse::Invalid => r is InvalidProtocol,
    }
}

/// Reads one UDP frame from the front of the buffer.
pub fn parse_endpoint(buffer: &[u8]) -> (r: UdpParseResultEndpoint)
    ensures
        frame_result_matches(r, buffer@),
{
    if buffer.len() == 0 {
        return UdpParseResultEndpoint::Continued;
    }
    let atyp = buffer[0];
    if atyp != ATYP_V4 && atyp != ATYP_V6 {
        return UdpParseResultEndpoint::InvalidProtocol;
    }
    let alen: usize = if atyp == ATYP_V4 {
        4
    } else {
        16
    };
    if buffer.len() <= 5 + alen {
        return UdpParseResultEndpoint::Continued;
    }
    if buffer[5 + alen] != CR {
        return UdpParseResultEndpoint::InvalidProtocol;
    }
    if buffer.len() == 6 + alen {
        return UdpParseResultEndpoint::Continued;
    }
    if buffer[6 + alen] != LF {
        return UdpParseResultEndpoint::InvalidProtocol;
    }
    let length = u16_from_be(buffer[3 + alen], buffer[4 + alen]) as usize;
    if buffer.len() < 7 + alen + length {
        return UdpParseResultEndpoint::Continued;
    }
    let ip = if atyp == ATYP_V4 {
        IpAddress::V4([buffer[1], buffer[2], buffer[3], buffer[4]])
    } else {
        IpAddress::V6(
            [
                buffer[1],
                buffer[2],
                buffer[3],
                buffer[4],
                buffer[5],
                buffer[6],
                buffer[7],
                buffer[8],
                buffer[9],
                buffer[10],
                buffer[11],
                buffer[12],
                buffer[13],
                buffer[14],
                buffer[15],
                buffer[16],
            ],
        )
    };
    let port = u16_from_be(buffer[1 + alen], buffer[2 + alen]);
    proof {
        assert(ip.spec_bytes() =~= buffer@.subrange(1, 1 + alen as int));
    }
    UdpParseResultEndpoint::Packet(
        UdpPacket { endpoint: Endpoint { ip, port }, head: 7 + alen, length },
    )
}

/// The wire form of a UDP frame head: endpoint, payload length, CRLF. The
/// payload follows it.
pub open spec fn spec_encode_frame_head(ep: EndpointModel, length: u16) -> Seq<u8> {
    spec_encode_endpoint(ep) + spec_u16_bytes(length) + seq![CR, LF]
}

/// Appends a UDP frame head announcing a payload of `length` bytes.
pub fn generate_endpoint(buffer: &mut Vec<u8>, ep: &Endpoint, length: u16)
    ensures
        final (buffer)@ == old(buffer)@ + spec_encode_frame_head(ep@, length),
{
    push_endpoint(buffer, ep);
    push_u16(buffer, length);
    buffer.push(CR);
    buffer.push(LF);
    proof {
        assert(buffer@ =~= old(buffer)@ + spec_encode_frame_head(ep@, length));
    }
}

/// Round trip of one UDP frame: an encoded head followed by at least `length`
/// bytes parses back to the same endpoint and length, with the payload right
/// after the head.
pub proof fn lemma_frame_round_trip(ep: EndpointModel, length: u16, rest: Seq<u8>)
    requires
        ep.wf(),
        rest.len() >= length,
    ensures
        ({
            let head = spec_encode_frame_head(ep, length);
            spec_parse_frame(head + rest) == (SpecFrameParse::Packet {
                endpoint: ep,
                head: head.len() as int,
                length: length as int,
            })
        }),
{
    let head = spec_encode_frame_head(ep, length);
    let b = head + rest;
    let alen: int = if ep.v4 {
        4
    } else {
        16
    };
    assert(head.len() == 7 + alen);
    assert(b[0] == if ep.v4 {
        ATYP_V4
    } else {
        ATYP_V6
    });
    assert(b.subrange(1, 1 + alen) =~= ep.ip);
    assert(spec_u16((ep.port / 256) as u8, (ep.port % 256) as u8) == ep.port);
    assert(spec_u16((length / 256) as u8, (length % 256) as u8) == length);
    assert(b[5 + alen] == CR && b[6 + alen] == LF);
}

/// Splits accumulated plaintext into the complete UDP frames at its front:
/// the datagrams in the order they stand in the stream, the unconsumed tail,
/// and whether a protocol violation was hit. The guard on the packet case
/// only keeps the recursion decreasing; [`lemma_frame_packet_bounds`] shows
/// it always holds of a parsed packet.
pub open spec fn spec_split_frames(b: Seq<u8>) -> (Seq<(EndpointModel, Seq<u8>)>, Seq<u8>, bool)
    decreases b.len(),
{
    match spec_parse_frame(b) {
        SpecFrameParse::Packet { endpoint, head, length } => {
            if 0 < head && head + length <= b.len() {
                let rest = spec_split_frames(b.skip(head + length));
                (seq![(endpoint, b.subrange(head, head + length))] + rest.0, rest.1, rest.2)
            } else {
                (Seq::empty(), b, true)
            }
        },
        SpecFrameParse::Continued => (Seq::empty(), b, false),
        SpecFrameParse::Invalid => (Seq::empty(), b, true),
    }
}

/// One UDP payload and the endpoint it belongs to.
pub struct UdpDatagram {
    pub endpoint: Endpoint,
    pub payload: Vec<u8>,
}

/// The models of a list of datagrams, in order.
pub open spec fn datagram_views(ds: Seq<UdpDatagram>) -> Seq<(EndpointModel, Seq<u8>)> {
    ds.map_values(|d: UdpDatagram| (d.endpoint@, d.payload@))
}

/// What [`split_frames`] hands back.
pub struct SplitOutcome {
    pub datagrams: Vec<UdpDatagram>,
    pub tail: Vec<u8>,
    pub invalid: bool,
}

/// Splits the accumulated plaintext into complete UDP frames. The datagrams
/// come out in stream order; the tail is what a later arrival must be
/// appended to; `invalid` reports a protocol violation, after which the
/// connection is shut down.
pub fn split_frames(buffer: &[u8]) -> (r: SplitOutcome)
    ensures
        datagram_views(r.datagrams@) == spec_split_frames(buffer@).0,
        r.tail@ == spec_split_frames(buffer@).1,
        r.invalid == spec_split_frames(buffer@).2,
{
    let ghost whole = spec_split_frames(buffer@);
    let mut datagrams: Vec<UdpDatagram> = Vec::new();
    let mut offset: usize = 0;
    proof {
        assert(buffer@.skip(0) =~= buffer@);
        assert(datagram_views(datagrams@) + whole.0 =~= whole.0);
    }
    loop
        invariant
            offset <= buffer@.len(),
            whole == spec_split_frames(buffer@),
            whole.0 == datagram_views(datagrams@) + spec_split_frames(buffer@.skip(offset as int)).0,
            whole.1 == spec_split_frames(buffer@.skip(offset as int)).1,
            whole.2 == spec_split_frames(buffer@.skip(offset as int)).2,
        decreases buffer@.len() - offset,
    {
        let ghost remaining = buffer@.skip(offset as int);
        let r = parse_endpoint(slice_subrange(buffer, offset, buffer.len()));
        match r {
            UdpParseResultEndpoint::Packet(p) => {
                proof {
                    lemma_frame_packet_bounds(remaining);
                    assert(spec_split_frames(remaining).0 == seq![
                        (p.endpoint@, remaining.subrange(p.head as int, p.head + p.length)),
                    ] + spec_split_frames(remaining.skip(p.head + p.length)).0);
                }
                let payload = slice_to_vec(
                    slice_subrange(buffer, offset + p.head, offset + p.head + p.length),
                );
                proof {
                    assert(payload@ =~= remaining.subrange(p.head as int, p.head + p.length));
                }
                let ghost prev = datagrams@;
                datagrams.push(UdpDatagram { endpoint: p.endpoint, payload });
                proof {
                    assert(buffer@.skip(offset + p.head + p.length) =~= remaining.skip(
                        p.head + p.length,
                    ));
                    assert(datagram_views(datagrams@) =~= datagram_views(prev) + seq![
                        (p.endpoint@, payload@),
                    ]);
                    assert((datagram_views(prev) + seq![(p.endpoint@, payload@)])
                        + spec_split_frames(remaining.skip(p.head + p.length)).0 =~= datagram_views(
                        prev,
                    ) + (seq![(p.endpoint@, payload@)] + spec_split_frames(
                        remaining.skip(p.head + p.length),
                    ).0));
                }
                offset = offset + p.head + p.length;
            },
            UdpParseResultEndpoint::Continued => {
                let tail = slice_to_vec(slice_subrange(buffer, offset, buffer.len()));
                proof {
                    assert(datagram_views(datagrams@) =~= whole.0);
                }
                return SplitOutcome { datagrams, tail, invalid: false };
            },
            UdpParseResultEndpoint::InvalidProtocol => {
                let tail = slice_to_vec(slice_subrange(buffer, offset, buffer.len()));
                proof {
                    assert(datagram_views(datagrams@) =~= whole.0);
                }
                return SplitOutcome { datagrams, tail, invalid: true };
            },
        }
    }
}

/// A parsed packet stays the same packet when more bytes arrive behind it:
/// the parse looks only at the frame's own bytes.
pub proof fn lemma_parse_frame_extend(a: Seq<u8>, b: Seq<u8>)
    requires
        spec_parse_frame(a) is Packet,
    ensures
        spec_parse_frame(a + b) == spec_parse_frame(a),
{
    lemma_frame_packet_bounds(a);
    let alen: int = if a[0] == ATYP_V4 {
        4
    } else {
        16
    };
    assert((a + b).subrange(1, 1 + alen) =~= a.subrange(1, 1 + alen));
}

/// Splitting a stream commutes with feeding it in pieces: the frames of
/// `a + b` are the frames of `a` followed by the frames of `a`'s tail with
/// `b` appended, and the final tail and violation flag agree. This is what
/// lets the UDP backend keep only the tail between reads: the datagrams it
/// hands out over time are exactly those of the whole stream, in order.
pub proof fn lemma_split_frames_append(a: Seq<u8>, b: Seq<u8>)
    requires
        !spec_split_frames(a).2,
    ensures
        spec_split_frames(a + b).0 == spec_split_frames(a).0 + spec_split_frames(
            spec_split_frames(a).1 + b,
        ).0,
        spec_split_frames(a + b).1 == spec_split_frames(spec_split_frames(a).1 + b).1,
        spec_split_frames(a + b).2 == spec_split_frames(spec_split_frames(a).1 + b).2,
    decreases a.len(),
{
    match spec_parse_frame(a) {
        SpecFrameParse::Packet { endpoint, head, length } => {
            lemma_frame_packet_bounds(a);
            lemma_parse_frame_extend(a, b);
            assert((a + b).subrange(head, head + length) =~= a.subrange(head, head + length));
            assert((a + b).skip(head + length) =~= a.skip(head + length) + b);
            lemma_split_frames_append(a.skip(head + length), b);
            let first = seq![(endpoint, a.subrange(head, head + length))];
            let rest = a.skip(head + length);
            assert((first + spec_split_frames(rest).0) + spec_split_frames(
                spec_split_frames(rest).1 + b,
            ).0 =~= first + (spec_split_frames(rest).0 + spec_split_frames(
                spec_split_frames(rest).1 + b,
            ).0));
        },
        SpecFrameParse::Continued => {
            assert(spec_split_frames(a).1 == a);
            assert(Seq::<(EndpointModel, Seq<u8>)>::empty() + spec_split_frames(a + b).0
                =~= spec_split_frames(a + b).0);
        },
        SpecFrameParse::Invalid => {
            assert(false);
        },
    }
}

/// Frames keep their order inside the TLS stream: splitting a stream that
/// starts with one encoded frame yields that frame's datagram first, followed
/// by whatever the rest of the stream splits into.
pub proof fn lemma_split_frames_cons(ep: EndpointModel, payload: Seq<u8>, rest: Seq<u8>)
    requires
        ep.wf(),
        payload.len() <= u16::MAX,
    ensures
        ({
            let b = spec_encode_frame_head(ep, payload.len() as u16) + payload + rest;
            &&& spec_split_frames(b).0 == seq![(ep, payload)] + spec_split_frames(rest).0
            &&& spec_split_frames(b).1 == spec_split_frames(rest).1
            &&& spec_split_frames(b).2 == spec_split_frames(rest).2
        }),
{
    let length = payload.len() as u16;
    let head = spec_encode_frame_head(ep, length);
    let b = head + payload + rest;
    assert(b =~= head + (payload + rest));
    lemma_frame_round_trip(ep, length, payload + rest);
    assert(b.subrange(head.len() as int, head.len() + length) =~= payload);
    assert(b.skip(head.len() + length) =~= rest);
}

} // verus!
