//! The upstream side of a connection: a TCP stream for CONNECT flows, an
//! unconnected UDP socket for UDP associate flows. The sockets live outside;
//! these types keep the buffering and framing honest. The TCP backend's
//! well-formedness says that what reached the socket followed by what still
//! waits is exactly the bytes handed in, in order — the ordered-delivery
//! guarantee of CONNECT mode.

use vstd::prelude::*;
use vstd::slice::{slice_subrange, slice_to_vec};

use crate::addr::EndpointModel;
use crate::codec::{
    datagram_views, lemma_split_frames_append, spec_split_frames, split_frames, UdpDatagram,
};

verus! {

/// Idle limit of a TCP flow when none is configured.
pub const DEFAULT_TCP_IDLE_SECS: u64 = 300;

/// Idle limit of a UDP flow when none is configured.
pub const DEFAULT_UDP_IDLE_SECS: u64 = 60;

/// A flow is idle once more than its limit has passed since the last event.
pub open spec fn spec_timed_out(last_active: u64, now: u64, idle_duration: u64) -> bool {
    now > last_active && now - last_active > idle_duration
}

/// Bridges plaintext between the TLS wrapper and one upstream TCP socket.
/// `written` and `accepted` are the ghost history of the flow: everything the
/// socket confirmed and everything the client asked to send.
pub struct TcpBackend {
    pub send_buffer: Vec<u8>,
    pub written: Ghost<Seq<u8>>,
    pub accepted: Ghost<Seq<u8>>,
    pub idle_duration: u64,
    pub closing: bool,
    pub closed: bool,
}

impl TcpBackend {
    /// The bytes accepted for the upstream socket but not yet written.
    pub open spec fn spec_pending(self) -> Seq<u8> {
        self.send_buffer@
    }

    /// Ordered delivery: the socket got a prefix of the accepted bytes and the
    /// buffer holds the rest — nothing reordered, nothing invented.
    pub open spec fn wf(self) -> bool {
        self.accepted@ == self.written@ + self.spec_pending()
    }

    pub fn new(idle_duration: u64) -> (r: TcpBackend)
        ensures
            r.wf(),
            r.spec_pending() == Seq::<u8>::empty(),
            r.written@ == Seq::<u8>::empty(),
            r.accepted@ == Seq::<u8>::empty(),
            r.idle_duration == idle_duration,
            !r.closing,
            !r.closed,
    {
        let r = TcpBackend {
            send_buffer: Vec::new(),
            written: Ghost(Seq::empty()),
            accepted: Ghost(Seq::empty()),
            idle_duration,
            closing: false,
            closed: false,
        };
        proof {
            assert(r.accepted@ =~= r.written@ + r.spec_pending());
        }
        r
    }

    /// Accepts client bytes for the upstream socket: they join the queue
    /// behind everything accepted before them.
    pub fn dispatch(&mut self, data: &[u8])
        requires
            old(self).wf(),
        ensures
            final (self).wf(),
            final (self).accepted@ == old(self).accepted@ + data@,
            final (self).written@ == old(self).written@,
            final (self).spec_pending() == old(self).spec_pending() + data@,
            final (self).idle_duration == old(self).idle_duration,
            final (self).closing == old(self).closing,
            final (self).closed == old(self).closed,
    {
        crate::codec::push_bytes(&mut self.send_buffer, data);
        self.accepted = Ghost(self.accepted@ + data@);
        proof {
            assert(self.accepted@ =~= self.written@ + self.spec_pending());
        }
    }

    /// The bytes the owner must try to write to the socket next.
    pub fn pending(&self) -> (r: &Vec<u8>)
        ensures
            r@ == self.spec_pending(),
    {
        &self.send_buffer
    }

    /// Records that the socket accepted the first `n` pending bytes; the rest
    /// stay queued, still in order.
    pub fn mark_written(&mut self, n: usize)
        requires
            old(self).wf(),
            n <= old(self).spec_pending().len(),
        ensures
            final (self).wf(),
            final (self).written@ == old(self).written@ + old(self).spec_pending().take(n as int),
            final (self).spec_pending() == old(self).spec_pending().skip(n as int),
            final (self).accepted@ == old(self).accepted@,
            final (self).idle_duration == old(self).idle_duration,
            final (self).closing == old(self).closing,
            final (self).closed == old(self).closed,
    {
        let rest = slice_to_vec(slice_subrange(self.send_buffer.as_slice(), n, self.send_buffer.len()));
        self.written = Ghost(self.written@ + self.send_buffer@.take(n as int));
        self.send_buffer = rest;
        proof {
            assert(self.accepted@ =~= self.written@ + self.spec_pending());
        }
    }

    /// Whether this flow has been idle longer than its limit.
    pub fn timed_out(&self, last_active: u64, now: u64) -> (r: bool)
        ensures
            r == spec_timed_out(last_active, now, self.idle_duration),
    {
        now > last_active && now - last_active > self.idle_duration
    }

    /// Starts closure (end of file or error on either side).
    pub fn set_closing(&mut self)
        ensures
            final (self).closing,
            final (self).closed == old(self).closed,
            final (self).wf() == old(self).wf(),
            final (self).accepted@ == old(self).accepted@,
            final (self).written@ == old(self).written@,
            final (self).spec_pending() == old(self).spec_pending(),
            final (self).idle_duration == old(self).idle_duration,
    {
        self.closing = true;
    }

    /// Deregisters and closes the socket; idempotent.
    pub fn close_now(&mut self)
        ensures
            final (self).closed,
            final (self).wf() == old(self).wf(),
            final (self).accepted@ == old(self).accepted@,
            final (self).written@ == old(self).written@,
            final (self).spec_pending() == old(self).spec_pending(),
            final (self).idle_duration == old(self).idle_duration,
    {
        self.closed = true;
    }
}

/// Everything the upstream TCP socket receives in CONNECT mode is the
/// client's payload bytes, concatenated in order, with nothing added: the
/// written prefix and the queued rest partition what was accepted.
pub proof fn lemma_ordered_delivery(b: TcpBackend)
    requires
        b.wf(),
    ensures
        b.written@ == b.accepted@.take(b.written@.len() as int),
        b.spec_pending() == b.accepted@.skip(b.written@.len() as int),
        b.written@.len() + b.spec_pending().len() == b.accepted@.len(),
{
    assert(b.written@ =~= b.accepted@.take(b.written@.len() as int));
    assert(b.spec_pending() =~= b.accepted@.skip(b.written@.len() as int));
}

/// Bridges framed UDP payloads between the TLS wrapper and an unconnected
/// UDP socket. Keeps the tail of a partially arrived frame between reads.
/// `fed` and `delivered` are the ghost history of the flow: every plaintext
/// byte that arrived and every datagram handed out.
pub struct UdpBackend {
    pub recv_tail: Vec<u8>,
    pub fed: Ghost<Seq<u8>>,
    pub delivered: Ghost<Seq<(EndpointModel, Seq<u8>)>>,
    pub idle_duration: u64,
    pub shutdown: bool,
    pub closing: bool,
    pub closed: bool,
}

impl UdpBackend {
    /// The well-formed but incomplete frame prefix kept for the next arrival.
    pub open spec fn spec_tail(self) -> Seq<u8> {
        self.recv_tail@
    }

    /// Faithful framing: splitting everything ever fed yields exactly the
    /// datagrams handed out, in order, with the kept tail as remainder; the
    /// backend is shut down exactly when that stream violates the protocol.
    pub open spec fn wf(self) -> bool {
        &&& spec_split_frames(self.fed@).0 == self.delivered@
        &&& spec_split_frames(self.fed@).1 == self.spec_tail()
        &&& spec_split_frames(self.fed@).2 == self.shutdown
    }

    pub fn new(idle_duration: u64) -> (r: UdpBackend)
        ensures
            r.wf(),
            r.spec_tail() == Seq::<u8>::empty(),
            r.fed@ == Seq::<u8>::empty(),
            r.delivered@ == Seq::<(EndpointModel, Seq<u8>)>::empty(),
            r.idle_duration == idle_duration,
            !r.shutdown,
            !r.closing,
            !r.closed,
    {
        UdpBackend {
            recv_tail: Vec::new(),
            fed: Ghost(Seq::empty()),
            delivered: Ghost(Seq::empty()),
            idle_duration,
            shutdown: false,
            closing: false,
            closed: false,
        }
    }

    /// Feeds newly decrypted plaintext to the frame splitter, together with
    /// the kept tail. Returns the complete datagrams in stream order; a
    /// protocol violation shuts the backend down.
    pub fn feed(&mut self, data: &[u8]) -> (r: Vec<UdpDatagram>)
        requires
            old(self).wf(),
            !old(self).shutdown,
        ensures
            final (self).wf(),
            ({
                let split = spec_split_frames(old(self).spec_tail() + data@);
                &&& datagram_views(r@) == split.0
                &&& final (self).spec_tail() == split.1
                &&& final (self).shutdown == split.2
            }),
            final (self).fed@ == old(self).fed@ + data@,
            final (self).delivered@ == old(self).delivered@ + datagram_views(r@),
            final (self).idle_duration == old(self).idle_duration,
            final (self).closing == old(self).closing,
            final (self).closed == old(self).closed,
    {
        let mut buffer = Vec::new();
        crate::codec::push_bytes(&mut buffer, self.recv_tail.as_slice());
        crate::codec::push_bytes(&mut buffer, data);
        let outcome = split_frames(buffer.as_slice());
        proof {
            assert(buffer@ =~= old(self).spec_tail() + data@);
            lemma_split_frames_append(self.fed@, data@);
        }
        self.fed = Ghost(self.fed@ + data@);
        self.delivered = Ghost(self.delivered@ + datagram_views(outcome.datagrams@));
        self.recv_tail = outcome.tail;
        self.shutdown = outcome.invalid;
        outcome.datagrams
    }

    /// Whether this flow has been idle longer than its limit.
    pub fn timed_out(&self, last_active: u64, now: u64) -> (r: bool)
        ensures
            r == spec_timed_out(last_active, now, self.idle_duration),
    {
        now > last_active && now - last_active > self.idle_duration
    }

    /// Starts closure.
    pub fn set_closing(&mut self)
        ensures
            final (self).closing,
            final (self).closed == old(self).closed,
            final (self).shutdown == old(self).shutdown,
            final (self).spec_tail() == old(self).spec_tail(),
            final (self).fed@ == old(self).fed@,
            final (self).delivered@ == old(self).delivered@,
            final (self).wf() == old(self).wf(),
            final (self).idle_duration == old(self).idle_duration,
    {
        self.closing = true;
    }

    /// Deregisters and closes the socket; idempotent.
    pub fn close_now(&mut self)
        ensures
            final (self).closed,
            final (self).shutdown == old(self).shutdown,
            final (self).spec_tail() == old(self).spec_tail(),
            final (self).fed@ == old(self).fed@,
            final (self).delivered@ == old(self).delivered@,
            final (self).wf() == old(self).wf(),
            final (self).idle_duration == old(self).idle_duration,
    {
        self.closed = true;
    }
}

} // verus!
