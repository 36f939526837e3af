//! The per-connection state machine of the server. A connection owns the
//! inbound TLS side, an optional upstream backend and the parsed request; it
//! moves one way through handshake, DNS wait and forwarding. The socket work
//! (reads, writes, connects, poller registration) happens outside; each step
//! here takes the outside world's answer as a plain value and says exactly
//! what it does to the state and what the caller must do next.

use vstd::prelude::*;
use vstd::pervasive::unreached;
use vstd::slice::slice_to_vec;

use crate::addr::{Address, Endpoint, IpAddress};
use crate::backend::{spec_timed_out, TcpBackend, UdpBackend};
use crate::codec::{parse_request, spec_parse_request, UdpDatagram, CONNECT};
use crate::tls::TlsConn;

verus! {

/// Where a connection stands: parsing the preamble, waiting for the
/// destination address, or forwarding over its backend.
#[derive(Clone, Copy, Debug, PartialEq, Eq, Structural)]
pub enum Status {
    HandShake,
    DnsWait,
    TcpForward,
    UdpForward,
}

/// The upstream half, once attached.
pub enum Backend {
    Tcp(TcpBackend),
    Udp(UdpBackend),
}

/// What the owner must do after a handshake step.
pub enum HandshakeAction {
    /// Submit this domain to the resolver, keyed by the backend token.
    Resolve(Vec<u8>),
    /// The target is already decided (or not needed); go on to setup.
    Ready,
}

/// A handshake step's outcome: the action and the residual payload that must
/// reach the backend once it exists.
pub struct HandshakeOutcome {
    pub action: HandshakeAction,
    pub payload: Vec<u8>,
}

/// What the owner must do to leave the DNS-wait state.
pub enum SetupAction {
    /// The resolution is still pending; do nothing yet.
    WaitDns,
    /// Open a TCP stream to this endpoint and attach the TCP backend.
    ConnectTcp(Endpoint),
    /// Bind a wildcard UDP socket and attach the UDP backend.
    BindUdp,
    /// The connection is closing; tear it down.
    Abort,
}

/// How one readiness event must be routed, decided by the token's parity and
/// the connection's status.
pub struct EventRoute {
    /// Drain and dispatch plaintext from the proxy side.
    pub read_proxy: bool,
    /// Flush pending ciphertext on the proxy side.
    pub send_proxy: bool,
    /// Hand the readable event to the backend.
    pub backend_readable: bool,
    /// Hand the writable event to the backend.
    pub backend_writable: bool,
    /// The backend-side token woke a pending DNS registration.
    pub dns_ready: bool,
}

/// One inbound session: the TLS side, the parsed request, and the upstream
/// backend once attached.
pub struct Connection {
    pub index: usize,
    pub proxy: TlsConn,
    pub status: Status,
    pub command: u8,
    pub sock5_addr: Address,
    pub last_active_time: u64,
    pub backend: Option<Backend>,
    pub closing: bool,
    pub target_addr: Option<Endpoint>,
    pub resolving: bool,
}

impl Connection {
    /// The state invariant. In particular: a handshaking connection has no
    /// backend and no resolver registration; a forwarding connection always
    /// has the matching backend; a connection waiting on DNS for a CONNECT
    /// either knows its target, has a resolution pending, or is closing.
    pub open spec fn wf(self) -> bool {
        &&& (self.status is HandShake ==> self.backend is None && !self.resolving
            && self.target_addr is None)
        &&& (self.status is DnsWait ==> self.backend is None)
        &&& (self.status is DnsWait && self.command == CONNECT && !self.closing
            ==> self.target_addr is Some || self.resolving)
        &&& (self.status is TcpForward ==> (self.backend matches Some(Backend::Tcp(b)) && b.wf()))
        &&& (self.status is UdpForward ==> (self.backend matches Some(Backend::Udp(b)) && b.wf()))
        &&& (self.resolving ==> self.status is DnsWait)
    }

    /// The TCP backend (meaningful only in `TcpForward`).
    pub open spec fn spec_tcp_backend(self) -> TcpBackend {
        match self.backend {
            Some(Backend::Tcp(b)) => b,
            _ => arbitrary(),
        }
    }

    /// The UDP backend (meaningful only in `UdpForward`).
    pub open spec fn spec_udp_backend(self) -> UdpBackend {
        match self.backend {
            Some(Backend::Udp(b)) => b,
            _ => arbitrary(),
        }
    }

    /// Whether the backend judges the connection idle for too long.
    pub open spec fn spec_timeout(self, now: u64) -> bool {
        match self.backend {
            Some(Backend::Tcp(b)) => spec_timed_out(self.last_active_time, now, b.idle_duration),
            Some(Backend::Udp(b)) => spec_timed_out(self.last_active_time, now, b.idle_duration),
            None => false,
        }
    }

    /// Both halves are gone: the backend is closed or absent, and the proxy
    /// side is closed.
    pub open spec fn spec_is_closed(self) -> bool {
        &&& match self.backend {
            Some(Backend::Tcp(b)) => b.closed,
            Some(Backend::Udp(b)) => b.closed,
            None => true,
        }
        &&& self.proxy.spec_closed()
    }

    /// Some side asked for teardown.
    pub open spec fn spec_should_close(self) -> bool {
        ||| self.closing
        ||| self.proxy.spec_closing()
        ||| match self.backend {
            Some(Backend::Tcp(b)) => b.closing,
            Some(Backend::Udp(b)) => b.closing || b.shutdown,
            None => false,
        }
    }

    pub fn new(index: usize, proxy: TlsConn, now: u64) -> (r: Connection)
        ensures
            r.wf(),
            r.index == index,
            r.proxy == proxy,
            r.status is HandShake,
            r.command == 0,
            r.sock5_addr is Unset,
            r.last_active_time == now,
            r.backend is None,
            !r.closing,
            r.target_addr is None,
            !r.resolving,
    {
        Connection {
            index,
            proxy,
            status: Status::HandShake,
            command: 0,
            sock5_addr: Address::Unset,
            last_active_time: now,
            backend: None,
            closing: false,
            target_addr: None,
            resolving: false,
        }
    }

    /// Whether the backend judges the connection idle for too long. A
    /// connection without a backend never times out.
    pub fn timeout(&self, now: u64) -> (r: bool)
        ensures
            r == self.spec_timeout(now),
    {
        match &self.backend {
            Some(Backend::Tcp(b)) => b.timed_out(self.last_active_time, now),
            Some(Backend::Udp(b)) => b.timed_out(self.last_active_time, now),
            None => false,
        }
    }

    /// Tears down both sides; idempotent.
    pub fn close_now(&mut self)
        ensures
            final (self).spec_is_closed(),
            final (self).proxy.spec_closed(),
            final (self).status == old(self).status,
            final (self).index == old(self).index,
            final (self).wf() == old(self).wf(),
    {
        self.proxy.close_now();
        match &mut self.backend {
            Some(Backend::Tcp(b)) => b.close_now(),
            Some(Backend::Udp(b)) => b.close_now(),
            None => {},
        }
    }

    /// Both halves are gone.
    pub fn is_closed(&self) -> (r: bool)
        ensures
            r == self.spec_is_closed(),
    {
        let backend_closed = match &self.backend {
            Some(Backend::Tcp(b)) => b.closed,
            Some(Backend::Udp(b)) => b.closed,
            None => true,
        };
        backend_closed && self.proxy.closed()
    }

    /// Some side asked for teardown; the owner then calls
    /// [`Connection::close_now`].
    pub fn should_close(&self) -> (r: bool)
        ensures
            r == self.spec_should_close(),
    {
        let backend_closing = match &self.backend {
            Some(Backend::Tcp(b)) => b.closing,
            Some(Backend::Udp(b)) => b.closing || b.shutdown,
            None => false,
        };
        self.closing || self.proxy.closing() || backend_closing
    }

    /// Marks the connection as closing (a setup or registration failure).
    pub fn mark_closing(&mut self)
        ensures
            *final (self) == (Connection { closing: true, ..*old(self) }),
            old(self).wf() ==> final (self).wf(),
    {
        self.closing = true;
    }

    /// Routes one readiness event. The activity clock moves first, whatever
    /// the event; then the token's parity picks the side, and the status picks
    /// what the backend-side event means.
    pub fn ready(&mut self, token: usize, readable: bool, writable: bool, now: u64) -> (r:
        EventRoute)
        requires
            old(self).wf(),
        ensures
            final (self).wf(),
            *final (self) == (Connection { last_active_time: now, ..*old(self) }),
            r.read_proxy == (readable && token % 2 == 0),
            r.send_proxy == (writable && token % 2 == 0),
            r.backend_readable == (readable && token % 2 == 1 && (old(self).status is TcpForward
                || old(self).status is UdpForward)),
            r.backend_writable == (writable && token % 2 == 1 && (old(self).status is TcpForward
                || old(self).status is UdpForward)),
            r.dns_ready == (readable && token % 2 == 1 && old(self).status is DnsWait),
    {
        self.last_active_time = now;
        let proxy_side = token % 2 == 0;
        let forwarding = match self.status {
            Status::TcpForward | Status::UdpForward => true,
            _ => false,
        };
        let dns_wait = match self.status {
            Status::DnsWait => true,
            _ => false,
        };
        EventRoute {
            read_proxy: readable && proxy_side,
            send_proxy: writable && proxy_side,
            backend_readable: readable && !proxy_side && forwarding,
            backend_writable: writable && !proxy_side && forwarding,
            dns_ready: readable && !proxy_side && dns_wait,
        }
    }

    /// Parses the accumulated plaintext as a Trojan preamble and adopts the
    /// request: the parsed command and address on success, or CONNECT to the
    /// fallback upstream on failure (the whole buffer is then payload). Moves
    /// to DNS wait; a domain destination of a CONNECT must be resolved.
    pub fn handshake(&mut self, buffer: &[u8], secret: &[u8], back_addr: Endpoint) -> (r:
        HandshakeOutcome)
        requires
            old(self).wf(),
            old(self).status is HandShake,
        ensures
            final (self).wf(),
            final (self).status is DnsWait,
            final (self).index == old(self).index,
            final (self).proxy == old(self).proxy,
            final (self).last_active_time == old(self).last_active_time,
            final (self).backend is None,
            final (self).closing == old(self).closing,
            match spec_parse_request(buffer@, secret@) {
                Some((command, address, head)) => {
                    &&& final (self).command == command
                    &&& final (self).sock5_addr@ == address
                    &&& r.payload@ == buffer@.skip(head)
                },
                None => {
                    &&& final (self).command == CONNECT
                    &&& final (self).sock5_addr is Unset
                    &&& r.payload@ == buffer@
                },
            },
            match final (self).sock5_addr {
                Address::Domain(name, _) => {
                    if final (self).command == CONNECT {
                        &&& final (self).resolving
                        &&& final (self).target_addr is None
                        &&& (r.action matches HandshakeAction::Resolve(d) && d@ == name@)
                    } else {
                        &&& !final (self).resolving
                        &&& final (self).target_addr is None
                        &&& r.action is Ready
                    }
                },
                Address::Socket(ep) => {
                    &&& !final (self).resolving
                    &&& final (self).target_addr == Some(ep)
                    &&& r.action is Ready
                },
                Address::Unset => {
                    &&& !final (self).resolving
                    &&& final (self).target_addr == Some(back_addr)
                    &&& r.action is Ready
                },
            },
    {
        let parsed = parse_request(buffer, secret);
        let (address, payload) = match parsed {
            Some(req) => {
                self.command = req.command;
                (req.address, req.payload)
            },
            None => {
                self.command = CONNECT;
                (Address::Unset, slice_to_vec(buffer))
            },
        };
        let action = match &address {
            Address::Domain(name, _) => {
                if self.command != CONNECT {
                    HandshakeAction::Ready
                } else {
                    self.resolving = true;
                    HandshakeAction::Resolve(slice_to_vec(name.as_slice()))
                }
            },
            Address::Socket(ep) => {
                self.target_addr = Some(*ep);
                HandshakeAction::Ready
            },
            Address::Unset => {
                self.target_addr = Some(back_addr);
                HandshakeAction::Ready
            },
        };
        self.sock5_addr = address;
        self.status = Status::DnsWait;
        HandshakeOutcome { action, payload }
    }

    /// Takes the resolver's answer for the pending domain: an address fixes
    /// the target (the port is the one from the request); no address closes
    /// the connection. Either way the registration is gone.
    pub fn on_dns_result(&mut self, ip: Option<IpAddress>)
        requires
            old(self).wf(),
            old(self).status is DnsWait,
            old(self).resolving,
            old(self).sock5_addr matches Address::Domain(_, _),
        ensures
            final (self).wf(),
            !final (self).resolving,
            final (self).status is DnsWait,
            final (self).index == old(self).index,
            final (self).proxy == old(self).proxy,
            final (self).command == old(self).command,
            final (self).sock5_addr == old(self).sock5_addr,
            final (self).last_active_time == old(self).last_active_time,
            final (self).backend is None,
            match ip {
                Some(a) => {
                    &&& final (self).target_addr matches Some(ep)
                    &&& ep.ip == a
                    &&& old(self).sock5_addr matches Address::Domain(_, port) && ep.port == port
                    &&& final (self).closing == old(self).closing
                },
                None => final (self).closing,
            },
    {
        match ip {
            Some(a) => {
                let port = match &self.sock5_addr {
                    Address::Domain(_, port) => *port,
                    _ => unreached(),
                };
                self.target_addr = Some(Endpoint::new(a, port));
            },
            None => {
                self.closing = true;
            },
        }
        self.resolving = false;
    }

    /// What it takes to leave the DNS-wait state: abort when closing, wait
    /// while the resolution is pending, otherwise connect the TCP target or
    /// bind the UDP socket, as the command asks.
    pub fn next_setup_action(&self) -> (r: SetupAction)
        requires
            self.wf(),
            self.status is DnsWait,
        ensures
            self.closing ==> r is Abort,
            !self.closing && self.command != CONNECT ==> r is BindUdp,
            !self.closing && self.command == CONNECT && self.target_addr is Some ==> r
                == SetupAction::ConnectTcp(self.target_addr->0),
            !self.closing && self.command == CONNECT && self.target_addr is None ==> r is WaitDns,
    {
        if self.closing {
            SetupAction::Abort
        } else if self.command != CONNECT {
            SetupAction::BindUdp
        } else {
            match &self.target_addr {
                Some(ep) => SetupAction::ConnectTcp(*ep),
                None => SetupAction::WaitDns,
            }
        }
    }

    /// The upstream TCP stream is connected and registered: attach its
    /// backend and start forwarding.
    pub fn attach_tcp_backend(&mut self, idle_duration: u64)
        requires
            old(self).wf(),
            old(self).status is DnsWait,
            old(self).command == CONNECT,
        ensures
            final (self).wf(),
            final (self).status is TcpForward,
            final (self).backend matches Some(Backend::Tcp(b)) && b.wf() && b.idle_duration
                == idle_duration && b.accepted@ == Seq::<u8>::empty() && b.written@
                == Seq::<u8>::empty() && b.spec_pending() == Seq::<u8>::empty() && !b.closing
                && !b.closed,
            final (self).index == old(self).index,
            final (self).proxy == old(self).proxy,
            final (self).command == old(self).command,
            final (self).sock5_addr == old(self).sock5_addr,
            final (self).last_active_time == old(self).last_active_time,
            final (self).closing == old(self).closing,
            final (self).target_addr == old(self).target_addr,
            !final (self).resolving,
    {
        self.backend = Some(Backend::Tcp(TcpBackend::new(idle_duration)));
        self.resolving = false;
        self.status = Status::TcpForward;
    }

    /// The wildcard UDP socket is bound and registered: attach its backend
    /// and start forwarding datagrams.
    pub fn attach_udp_backend(&mut self, idle_duration: u64)
        requires
            old(self).wf(),
            old(self).status is DnsWait,
            old(self).command != CONNECT,
        ensures
            final (self).wf(),
            final (self).status is UdpForward,
            final (self).backend matches Some(Backend::Udp(b)) && b.wf() && b.idle_duration
                == idle_duration && b.spec_tail() == Seq::<u8>::empty() && b.fed@
                == Seq::<u8>::empty() && b.delivered@ == Seq::<
                (crate::addr::EndpointModel, Seq<u8>),
            >::empty() && !b.shutdown && !b.closing && !b.closed,
            final (self).index == old(self).index,
            final (self).proxy == old(self).proxy,
            final (self).command == old(self).command,
            final (self).sock5_addr == old(self).sock5_addr,
            final (self).last_active_time == old(self).last_active_time,
            final (self).closing == old(self).closing,
            final (self).target_addr == old(self).target_addr,
            !final (self).resolving,
    {
        self.backend = Some(Backend::Udp(UdpBackend::new(idle_duration)));
        self.resolving = false;
        self.status = Status::UdpForward;
    }
}

impl Connection {
    /// Queues client payload for the upstream TCP socket, behind everything
    /// queued before it.
    pub fn forward_to_upstream(&mut self, data: &[u8])
        requires
            old(self).wf(),
            old(self).status is TcpForward,
        ensures
            final (self).wf(),
            final (self).status is TcpForward,
            final (self).spec_tcp_backend().accepted@ == old(self).spec_tcp_backend().accepted@
                + data@,
            final (self).spec_tcp_backend().written@ == old(self).spec_tcp_backend().written@,
            final (self).spec_tcp_backend().spec_pending() == old(
                self,
            ).spec_tcp_backend().spec_pending() + data@,
            final (self).spec_tcp_backend().idle_duration == old(
                self,
            ).spec_tcp_backend().idle_duration,
            final (self).spec_tcp_backend().closing == old(self).spec_tcp_backend().closing,
            final (self).spec_tcp_backend().closed == old(self).spec_tcp_backend().closed,
            *final (self) == (Connection { backend: final (self).backend, ..*old(self) }),
    {
        match &mut self.backend {
            Some(Backend::Tcp(b)) => b.dispatch(data),
            _ => unreached(),
        }
    }

    /// The bytes that must be written to the upstream TCP socket next.
    pub fn upstream_pending(&self) -> (r: &Vec<u8>)
        requires
            self.wf(),
            self.status is TcpForward,
        ensures
            r@ == self.spec_tcp_backend().spec_pending(),
    {
        match &self.backend {
            Some(Backend::Tcp(b)) => b.pending(),
            _ => unreached(),
        }
    }

    /// Records how much of the pending upstream data the socket accepted.
    pub fn upstream_written(&mut self, n: usize)
        requires
            old(self).wf(),
            old(self).status is TcpForward,
            n <= old(self).spec_tcp_backend().spec_pending().len(),
        ensures
            final (self).wf(),
            final (self).status is TcpForward,
            final (self).spec_tcp_backend().accepted@ == old(self).spec_tcp_backend().accepted@,
            final (self).spec_tcp_backend().written@ == old(self).spec_tcp_backend().written@ + old(
                self,
            ).spec_tcp_backend().spec_pending().take(n as int),
            final (self).spec_tcp_backend().spec_pending() == old(
                self,
            ).spec_tcp_backend().spec_pending().skip(n as int),
            final (self).spec_tcp_backend().idle_duration == old(
                self,
            ).spec_tcp_backend().idle_duration,
            final (self).spec_tcp_backend().closing == old(self).spec_tcp_backend().closing,
            final (self).spec_tcp_backend().closed == old(self).spec_tcp_backend().closed,
            *final (self) == (Connection { backend: final (self).backend, ..*old(self) }),
    {
        match &mut self.backend {
            Some(Backend::Tcp(b)) => b.mark_written(n),
            _ => unreached(),
        }
    }

    /// Feeds decrypted plaintext to the UDP frame splitter and hands back the
    /// complete datagrams in stream order. A malformed frame shuts the backend
    /// down and closes the connection.
    pub fn feed_udp(&mut self, data: &[u8]) -> (r: Vec<UdpDatagram>)
        requires
            old(self).wf(),
            old(self).status is UdpForward,
            !old(self).spec_udp_backend().shutdown,
        ensures
            final (self).wf(),
            final (self).status is UdpForward,
            ({
                let split = crate::codec::spec_split_frames(
                    old(self).spec_udp_backend().spec_tail() + data@,
                );
                &&& crate::codec::datagram_views(r@) == split.0
                &&& final (self).spec_udp_backend().spec_tail() == split.1
                &&& final (self).spec_udp_backend().shutdown == split.2
                &&& final (self).closing == (old(self).closing || split.2)
            }),
            final (self).spec_udp_backend().wf(),
            final (self).spec_udp_backend().fed@ == old(self).spec_udp_backend().fed@ + data@,
            final (self).spec_udp_backend().delivered@ == old(self).spec_udp_backend().delivered@
                + crate::codec::datagram_views(r@),
            final (self).spec_udp_backend().idle_duration == old(
                self,
            ).spec_udp_backend().idle_duration,
            final (self).spec_udp_backend().closing == old(self).spec_udp_backend().closing,
            final (self).spec_udp_backend().closed == old(self).spec_udp_backend().closed,
            final (self).index == old(self).index,
            final (self).proxy == old(self).proxy,
            final (self).command == old(self).command,
            final (self).sock5_addr == old(self).sock5_addr,
            final (self).last_active_time == old(self).last_active_time,
            final (self).target_addr == old(self).target_addr,
            final (self).resolving == old(self).resolving,
    {
        let datagrams = match &mut self.backend {
            Some(Backend::Udp(b)) => b.feed(data),
            _ => unreached(),
        };
        let shutdown = match &self.backend {
            Some(Backend::Udp(b)) => b.shutdown,
            _ => unreached(),
        };
        if shutdown {
            self.closing = true;
        }
        datagrams
    }

    /// The backend hit end of file or an error: start closure.
    pub fn set_backend_closing(&mut self)
        requires
            old(self).wf(),
            old(self).status is TcpForward || old(self).status is UdpForward,
        ensures
            final (self).wf(),
            final (self).spec_should_close(),
            final (self).status == old(self).status,
            final (self).index == old(self).index,
            final (self).proxy == old(self).proxy,
            final (self).closing == old(self).closing,
            final (self).status is TcpForward ==> final (self).spec_tcp_backend().closing
                && final (self).spec_tcp_backend().accepted@ == old(
                self,
            ).spec_tcp_backend().accepted@ && final (self).spec_tcp_backend().written@ == old(
                self,
            ).spec_tcp_backend().written@ && final (self).spec_tcp_backend().spec_pending() == old(
                self,
            ).spec_tcp_backend().spec_pending(),
            final (self).status is UdpForward ==> final (self).spec_udp_backend().closing,
    {
        match &mut self.backend {
            Some(Backend::Tcp(b)) => b.set_closing(),
            Some(Backend::Udp(b)) => b.set_closing(),
            None => unreached(),
        }
    }
}

/// A forwarding connection always has its backend: `TcpForward` and
/// `UdpForward` each imply the matching backend is attached.
pub proof fn lemma_forwarding_has_backend(c: Connection)
    requires
        c.wf(),
        c.status is TcpForward || c.status is UdpForward,
    ensures
        c.backend is Some,
        c.status is TcpForward ==> c.backend matches Some(Backend::Tcp(_)),
        c.status is UdpForward ==> c.backend matches Some(Backend::Udp(_)),
{
}

} // verus!
