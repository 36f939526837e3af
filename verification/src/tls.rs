//! The state of one TLS-wrapped socket as the connection machine sees it.
//! The TLS session itself (record decryption, the handshake) and the socket
//! live outside; this model tracks what the wrapper promises its owner: the
//! lifecycle status and how much ciphertext still waits to be flushed, which
//! alone decides the poller's write interest.

use vstd::prelude::*;

verus! {

/// Lifecycle of the wrapped socket. `Shutdown` is an orderly close in
/// progress; `Closed` means the socket is done; `Deregistered` additionally
/// has left the poller.
#[derive(Clone, Copy, Debug, PartialEq, Eq, Structural)]
pub enum TlsStatus {
    Connecting,
    Established,
    Shutdown,
    Closed,
    Deregistered,
}

/// The connection-visible state of a TLS wrapper.
pub struct TlsConn {
    pub status: TlsStatus,
    pub tx_queue: usize,
}

impl TlsConn {
    pub open spec fn spec_closing(self) -> bool {
        self.status is Shutdown
    }

    pub open spec fn spec_closed(self) -> bool {
        self.status is Closed || self.status is Deregistered
    }

    pub fn new(status: TlsStatus) -> (r: TlsConn)
        ensures
            r.status == status,
            r.tx_queue == 0,
    {
        TlsConn { status, tx_queue: 0 }
    }

    /// An orderly close has begun but not finished.
    pub fn closing(&self) -> (r: bool)
        ensures
            r == self.spec_closing(),
    {
        matches!(self.status, TlsStatus::Shutdown)
    }

    /// The socket is closed (and possibly already deregistered).
    pub fn closed(&self) -> (r: bool)
        ensures
            r == self.spec_closed(),
    {
        matches!(self.status, TlsStatus::Closed | TlsStatus::Deregistered)
    }

    /// Marks the wrapper shut down: the session stops accepting plaintext.
    pub fn shutdown(&mut self)
        ensures
            final (self).status is Shutdown,
            final (self).tx_queue == old(self).tx_queue,
    {
        self.status = TlsStatus::Shutdown;
    }

    /// Closes and deregisters at once; idempotent.
    pub fn close_now(&mut self)
        ensures
            final (self).status is Deregistered,
            final (self).spec_closed(),
            final (self).tx_queue == old(self).tx_queue,
    {
        self.status = TlsStatus::Deregistered;
    }

    /// The TLS handshake finished; plaintext may now flow.
    pub fn established(&mut self)
        ensures
            final (self).status is Established,
            final (self).tx_queue == old(self).tx_queue,
    {
        self.status = TlsStatus::Established;
    }

    /// Records ciphertext queued for the socket.
    pub fn enqueued(&mut self, n: usize)
        requires
            old(self).tx_queue + n <= usize::MAX,
        ensures
            final (self).tx_queue == old(self).tx_queue + n,
            final (self).status == old(self).status,
    {
        self.tx_queue = self.tx_queue + n;
    }

    /// Records ciphertext the socket accepted.
    pub fn flushed(&mut self, n: usize)
        requires
            n <= old(self).tx_queue,
        ensures
            final (self).tx_queue == old(self).tx_queue - n,
            final (self).status == old(self).status,
    {
        self.tx_queue = self.tx_queue - n;
    }

    /// The poller interest this wrapper must hold: always readable, and
    /// writable exactly while ciphertext waits. Once the queue drains, write
    /// interest is dropped, so an edge-triggered poller cannot busy-spin.
    pub fn interest(&self) -> (r: (bool, bool))
        ensures
            r.0 == true,
            r.1 == (self.tx_queue > 0),
    {
        (true, self.tx_queue > 0)
    }
}

} // verus!
