//! The token scheme of the event loop. Every I/O source registered with the
//! poller carries a token; a connection with index `i` registers its inbound
//! (proxy) side under `2 * i` and its upstream (backend) side under
//! `2 * i + 1`. Indices 0 to 2 are reserved for the listener, the resolver
//! wakeup and related fixed sources; allocation starts at `MIN_INDEX` and
//! wraps below `MAX_INDEX`, so a token always fits in a `usize`.

use vstd::prelude::*;

verus! {

/// Number of channels (token slots) each connection occupies.
pub const CHANNEL_CNT: usize = 2;

/// Channel of the inbound TLS side.
pub const CHANNEL_PROXY: usize = 0;

/// Channel of the upstream side.
pub const CHANNEL_BACKEND: usize = 1;

/// Token of the listening socket.
pub const LISTENER: usize = 1;

/// Token under which the resolver's wakeup is registered.
pub const RESOLVER: usize = 2;

/// First index handed out to a connection.
pub const MIN_INDEX: usize = 3;

/// Indices wrap strictly below this bound, so every token stays in range.
pub const MAX_INDEX: usize = usize::MAX / 2;

/// Token of the inbound (proxy) side of the connection with this index.
pub fn proxy_token(index: usize) -> (r: usize)
    requires
        index <= MAX_INDEX,
    ensures
        r == index * CHANNEL_CNT + CHANNEL_PROXY,
        r % 2 == 0,
        r / 2 == index,
{
    index * CHANNEL_CNT + CHANNEL_PROXY
}

/// Token of the upstream (backend) side of the connection with this index.
pub fn backend_token(index: usize) -> (r: usize)
    requires
        index <= MAX_INDEX,
    ensures
        r == index * CHANNEL_CNT + CHANNEL_BACKEND,
        r % 2 == 1,
        r / 2 == index,
{
    index * CHANNEL_CNT + CHANNEL_BACKEND
}

/// The index of the connection owning this token, whichever side it names.
pub fn token_index(token: usize) -> (r: usize)
    ensures
        r == token / 2,
{
    token / CHANNEL_CNT
}

/// True when the token names the upstream side of its connection.
pub fn is_backend_token(token: usize) -> (r: bool)
    ensures
        r == (token % 2 == 1),
{
    token % CHANNEL_CNT == CHANNEL_BACKEND
}

/// The tokens of two distinct live connections never collide: each side of
/// each index maps to its own token, and the index is recovered by division.
pub proof fn lemma_tokens_unique(i: usize, j: usize)
    requires
        i <= MAX_INDEX,
        j <= MAX_INDEX,
        i != j,
    ensures
        i * CHANNEL_CNT + CHANNEL_PROXY != j * CHANNEL_CNT + CHANNEL_PROXY,
        i * CHANNEL_CNT + CHANNEL_PROXY != j * CHANNEL_CNT + CHANNEL_BACKEND,
        i * CHANNEL_CNT + CHANNEL_BACKEND != j * CHANNEL_CNT + CHANNEL_BACKEND,
{
}

/// Hands out connection indices, starting at `MIN_INDEX` and wrapping back to
/// it when the allocation would reach `MAX_INDEX`.
pub struct IndexAllocator {
    pub next: usize,
}

impl IndexAllocator {
    /// The stored cursor always names a valid, allocatable index.
    pub open spec fn wf(self) -> bool {
        MIN_INDEX <= self.next < MAX_INDEX
    }

    pub fn new() -> (r: IndexAllocator)
        ensures
            r.wf(),
            r.next == MIN_INDEX,
    {
        IndexAllocator { next: MIN_INDEX }
    }

    /// Returns the next free index and advances the cursor, wrapping below
    /// `MAX_INDEX`.
    pub fn next_index(&mut self) -> (r: usize)
        requires
            old(self).wf(),
        ensures
            final(self).wf(),
            r == old(self).next,
            MIN_INDEX <= r < MAX_INDEX,
            final(self).next == if old(self).next + 1 >= MAX_INDEX {
                MIN_INDEX as int
            } else {
                old(self).next + 1
            },
    {
        let index = self.next;
        if self.next + 1 >= MAX_INDEX {
            self.next = MIN_INDEX;
        } else {
            self.next = self.next + 1;
        }
        index
    }
}

} // verus!
