//! The connection registry of the server: connections indexed by their
//! allocation index, an allocator for new indices, and the sweep that finds
//! idle connections. The listener socket and the poller live outside; they
//! hand tokens and the time in, and get connections to work on out. An event
//! whose token no connection owns is dropped here, with nothing changed.

use vstd::prelude::*;

use crate::conn::Connection;
use crate::token::{IndexAllocator, MAX_INDEX, MIN_INDEX};

verus! {

/// The connections of one server, keyed by index, and the index allocator.
pub struct Registry {
    conns: Vec<(usize, Connection)>,
    allocator: IndexAllocator,
}

/// No two live connections share an index.
spec fn indices_unique(conns: Seq<(usize, Connection)>) -> bool {
    forall|p: int, q: int| 0 <= p < q < conns.len() ==> conns[p].0 != conns[q].0
}

/// With unique indices, the entry at any position holding the index is the
/// stored one.
proof fn lemma_conn_at(conns: Seq<(usize, Connection)>, i: int, index: usize)
    requires
        indices_unique(conns),
        0 <= i < conns.len(),
        conns[i].0 == index,
    ensures
        forall|j: int| 0 <= j < conns.len() && conns[j].0 == index ==> j == i,
{
    assert forall|j: int| 0 <= j < conns.len() && conns[j].0 == index implies j == i by {
        if j < i {
            assert(conns[j].0 != conns[i].0);
        } else if i < j {
            assert(conns[i].0 != conns[j].0);
        }
    }
}

/// Removing the entry at `i` keeps every other index's connection.
proof fn lemma_conn_remove(conns: Seq<(usize, Connection)>, i: int)
    requires
        indices_unique(conns),
        0 <= i < conns.len(),
    ensures
        indices_unique(conns.remove(i)),
        forall|j: int|
            0 <= j < conns.remove(i).len() ==> conns.remove(i)[j] == (if j < i {
                conns[j]
            } else {
                conns[j + 1]
            }),
        !has_index(conns.remove(i), conns[i].0),
        forall|x: usize| x != conns[i].0 ==> has_index(conns.remove(i), x) == has_index(conns, x),
        forall|x: usize|
            x != conns[i].0 && has_index(conns, x) ==> conn_at(conns.remove(i), x) == conn_at(
                conns,
                x,
            ),
{
    let mid = conns.remove(i);
    let index = conns[i].0;
    lemma_conn_at(conns, i, index);
    assert forall|x: usize| x != index && has_index(conns, x) implies has_index(mid, x) && conn_at(
        mid,
        x,
    ) == conn_at(conns, x) by {
        let k = choose|k: int| 0 <= k < conns.len() && conns[k].0 == x;
        lemma_conn_at(conns, k, x);
        let k2: int = if k < i {
            k
        } else {
            k - 1
        };
        assert(mid[k2] == conns[k]);
        lemma_conn_at(mid, k2, x);
        assert(mid[choose|j: int| 0 <= j < mid.len() && mid[j].0 == x].1 == conns[k].1);
    }
    assert forall|x: usize| x != index && has_index(mid, x) implies has_index(conns, x) by {
        let k = choose|k: int| 0 <= k < mid.len() && mid[k].0 == x;
        let k2: int = if k < i {
            k
        } else {
            k + 1
        };
        assert(conns[k2].0 == x);
    }
}

/// Appending an entry under an absent index stores it there and leaves every
/// other index's connection alone.
proof fn lemma_conn_push(conns: Seq<(usize, Connection)>, pair: (usize, Connection))
    requires
        indices_unique(conns),
        !has_index(conns, pair.0),
    ensures
        indices_unique(conns.push(pair)),
        has_index(conns.push(pair), pair.0),
        conn_at(conns.push(pair), pair.0) == pair.1,
        forall|x: usize| x != pair.0 ==> has_index(conns.push(pair), x) == has_index(conns, x),
        forall|x: usize|
            x != pair.0 && has_index(conns, x) ==> conn_at(conns.push(pair), x) == conn_at(
                conns,
                x,
            ),
{
    let new = conns.push(pair);
    assert(new[new.len() - 1] == pair);
    assert forall|p: int, q: int| 0 <= p < q < new.len() implies new[p].0 != new[q].0 by {
        if q < new.len() - 1 {
            assert(new[p] == conns[p] && new[q] == conns[q]);
        } else {
            assert(new[p] == conns[p]);
            assert(conns[p].0 != pair.0);
        }
    }
    lemma_conn_at(new, new.len() - 1, pair.0);
    assert forall|x: usize| x != pair.0 && has_index(conns, x) implies has_index(new, x) && conn_at(
        new,
        x,
    ) == conn_at(conns, x) by {
        let k = choose|k: int| 0 <= k < conns.len() && conns[k].0 == x;
        lemma_conn_at(conns, k, x);
        assert(new[k] == conns[k]);
        lemma_conn_at(new, k, x);
    }
    assert forall|x: usize| x != pair.0 && has_index(new, x) implies has_index(conns, x) by {
        let k = choose|k: int| 0 <= k < new.len() && new[k].0 == x;
        assert(k < conns.len() && conns[k].0 == x);
    }
}

/// Some connection is stored under this index.
spec fn has_index(conns: Seq<(usize, Connection)>, index: usize) -> bool {
    exists|i: int| 0 <= i < conns.len() && conns[i].0 == index
}

/// The connection stored under this index (meaningful only when `has_index`
/// holds).
spec fn conn_at(conns: Seq<(usize, Connection)>, index: usize) -> Connection {
    conns[choose|i: int| 0 <= i < conns.len() && conns[i].0 == index].1
}

impl Registry {
    /// Indices are unique and in range, every connection is well formed and
    /// carries its own index, and the allocator cursor is valid.
    pub closed spec fn wf(self) -> bool {
        &&& indices_unique(self.conns@)
        &&& forall|i: int|
            0 <= i < self.conns@.len() ==> {
                &&& (#[trigger] self.conns@[i]).1.wf()
                &&& self.conns@[i].1.index == self.conns@[i].0
                &&& MIN_INDEX <= self.conns@[i].0 < MAX_INDEX
            }
        &&& self.allocator.wf()
    }

    /// Whether a connection is registered under this index.
    pub closed spec fn spec_has_index(self, index: usize) -> bool {
        has_index(self.conns@, index)
    }

    /// The connection registered under this index (meaningful only when
    /// [`Registry::spec_has_index`] holds).
    pub closed spec fn spec_conn(self, index: usize) -> Connection {
        conn_at(self.conns@, index)
    }

    /// How many connections are registered.
    pub closed spec fn spec_len(self) -> nat {
        self.conns@.len()
    }

    pub fn new() -> (r: Registry)
        ensures
            r.wf(),
            forall|i: usize| !r.spec_has_index(i),
            r.spec_len() == 0,
    {
        Registry { conns: Vec::new(), allocator: IndexAllocator::new() }
    }

    /// How many connections are registered.
    pub fn len(&self) -> (r: usize)
        ensures
            r == self.spec_len(),
    {
        self.conns.len()
    }

    /// Hands out the next connection index, wrapping below `MAX_INDEX`.
    /// Registration state does not change.
    pub fn next_index(&mut self) -> (r: usize)
        requires
            old(self).wf(),
        ensures
            final (self).wf(),
            MIN_INDEX <= r < MAX_INDEX,
            forall|i: usize| final (self).spec_has_index(i) == old(self).spec_has_index(i),
            forall|i: usize|
                final (self).spec_has_index(i) ==> final (self).spec_conn(i) == old(
                    self,
                ).spec_conn(i),
            final (self).spec_len() == old(self).spec_len(),
    {
        self.allocator.next_index()
    }

    /// Finds the position of the entry under `index`, if any.
    fn find_index(&self, index: usize) -> (r: Option<usize>)
        requires
            self.wf(),
        ensures
            match r {
                Some(i) => i < self.conns@.len() && self.conns@[i as int].0 == index,
                None => !self.spec_has_index(index),
            },
    {
        let mut i: usize = 0;
        while i < self.conns.len()
            invariant
                i <= self.conns@.len(),
                forall|j: int| 0 <= j < i ==> self.conns@[j].0 != index,
            decreases self.conns@.len() - i,
        {
            if self.conns[i].0 == index {
                return Some(i);
            }
            i += 1;
        }
        None
    }

    /// Registers a connection under its index. A leftover connection under the
    /// same index (a full wrap of the allocator) is replaced.
    pub fn insert_conn(&mut self, conn: Connection)
        requires
            old(self).wf(),
            conn.wf(),
            MIN_INDEX <= conn.index < MAX_INDEX,
        ensures
            final (self).wf(),
            final (self).spec_has_index(conn.index),
            final (self).spec_conn(conn.index) == conn,
            forall|i: usize|
                i != conn.index ==> final (self).spec_has_index(i) == old(self).spec_has_index(i),
            forall|i: usize|
                i != conn.index && old(self).spec_has_index(i) ==> final (self).spec_conn(i) == old(
                    self,
                ).spec_conn(i),
    {
        let index = conn.index;
        if let Some(i) = self.find_index(index) {
            proof {
                lemma_conn_remove(self.conns@, i as int);
            }
            self.conns.remove(i);
        }
        proof {
            lemma_conn_push(self.conns@, (index, conn));
        }
        self.conns.push((index, conn));
    }

    /// Takes the connection owning this token out of the registry, to work on
    /// and put back (or drop once closed). An event whose token nobody owns is
    /// dropped without side effects: the registry is left exactly as it was.
    pub fn take_conn(&mut self, token: usize) -> (r: Option<Connection>)
        requires
            old(self).wf(),
        ensures
            final (self).wf(),
            ({
                let index = (token / 2) as usize;
                match r {
                    Some(conn) => {
                        &&& old(self).spec_has_index(index)
                        &&& conn == old(self).spec_conn(index)
                        &&& conn.wf()
                        &&& conn.index == index
                        &&& !final (self).spec_has_index(index)
                        &&& forall|i: usize|
                            i != index ==> final (self).spec_has_index(i) == old(
                                self,
                            ).spec_has_index(i)
                        &&& forall|i: usize|
                            i != index && old(self).spec_has_index(i) ==> final (self).spec_conn(i)
                                == old(self).spec_conn(i)
                    },
                    None => {
                        &&& !old(self).spec_has_index(index)
                        &&& *final (self) == *old(self)
                    },
                }
            }),
    {
        let index = token / 2;
        if let Some(i) = self.find_index(index) {
            proof {
                lemma_conn_at(self.conns@, i as int, index);
                lemma_conn_remove(self.conns@, i as int);
            }
            let (_, conn) = self.conns.remove(i);
            Some(conn)
        } else {
            None
        }
    }

    /// The indices of every connection whose backend judges it idle at `now`.
    /// Each appears once; the registry itself does not change.
    pub fn timed_out_indices(&self, now: u64) -> (r: Vec<usize>)
        requires
            self.wf(),
        ensures
            forall|j: int|
                0 <= j < r@.len() ==> self.spec_has_index(r@[j]) && self.spec_conn(
                    r@[j],
                ).spec_timeout(now),
            forall|i: usize|
                self.spec_has_index(i) && self.spec_conn(i).spec_timeout(now) ==> r@.contains(i),
            forall|p: int, q: int| 0 <= p < q < r@.len() ==> r@[p] != r@[q],
    {
        let mut out: Vec<usize> = Vec::new();
        let mut i: usize = 0;
        while i < self.conns.len()
            invariant
                self.wf(),
                i <= self.conns@.len(),
                forall|j: int|
                    0 <= j < out@.len() ==> self.spec_has_index(out@[j]) && self.spec_conn(
                        out@[j],
                    ).spec_timeout(now),
                forall|k: int|
                    0 <= k < i && self.conns@[k].1.spec_timeout(now) ==> out@.contains(
                        self.conns@[k].0,
                    ),
                forall|j: int| #![trigger out@[j]]
                    0 <= j < out@.len() ==> exists|k: int|
                        0 <= k < i && (#[trigger] self.conns@[k]).0 == out@[j],
                forall|p: int, q: int| 0 <= p < q < out@.len() ==> out@[p] != out@[q],
            decreases self.conns@.len() - i,
        {
            let (index, ref conn) = self.conns[i];
            if conn.timeout(now) {
                proof {
                    lemma_conn_at(self.conns@, i as int, index);
                    assert forall|j: int| 0 <= j < out@.len() implies out@[j] != index by {
                        let k = choose|k: int|
                            0 <= k < i && (#[trigger] self.conns@[k]).0 == out@[j];
                        assert(self.conns@[k].0 != self.conns@[i as int].0);
                    }
                }
                let ghost prev = out@;
                out.push(index);
                proof {
                    assert(out@[out@.len() - 1] == index);
                    assert(out@.contains(index));
                    assert forall|y: usize| prev.contains(y) implies out@.contains(y) by {
                        let j = choose|j: int| 0 <= j < prev.len() && prev[j] == y;
                        assert(out@[j] == y);
                    }
                }
            }
            i += 1;
        }
        proof {
            assert forall|x: usize|
                self.spec_has_index(x) && self.spec_conn(x).spec_timeout(now) implies out@.contains(
                x,
            ) by {
                let k = choose|k: int| 0 <= k < self.conns@.len() && self.conns@[k].0 == x;
                lemma_conn_at(self.conns@, k, x);
            }
        }
        out
    }
}

/// Token recycling: once the connection with some index is gone from the
/// registry, neither of that index's tokens finds an owner any more — a
/// [`Registry::take_conn`] on either returns nothing and leaves the registry
/// untouched, so no event can reach the departed connection.
pub proof fn lemma_stale_tokens_find_no_owner(reg: Registry, index: usize)
    requires
        !reg.spec_has_index(index),
        index <= MAX_INDEX,
    ensures
        !reg.spec_has_index(((index * 2) / 2) as usize),
        !reg.spec_has_index(((index * 2 + 1) / 2) as usize),
{
    assert((index * 2) / 2 == index);
    assert((index * 2 + 1) / 2 == index);
}

} // verus!
