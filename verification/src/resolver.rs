//! The DNS cache and the address-preference rule. The blocking name lookup,
//! the worker pool, the result channel and the poller wakeup live outside;
//! they hand this module domains, resolved addresses and the current time as
//! plain values. Times are in whole seconds.

use vstd::prelude::*;

use crate::addr::IpAddress;

verus! {

/// How long a cache entry stays valid when no other duration is configured.
pub const DEFAULT_DNS_CACHE_SECS: u64 = 10;

/// A cached resolution: the address and the time at which it stops counting.
pub struct DnsEntry {
    pub address: IpAddress,
    pub expired_at: u64,
}

/// The domain cache of the resolver. Entries are keyed by the domain's bytes;
/// a key occurs at most once.
pub struct DnsResolver {
    entries: Vec<(Vec<u8>, DnsEntry)>,
    dns_cache_duration: u64,
}

/// `a + b`, stopping at the top of the type instead of wrapping.
pub open spec fn sat_add64(a: u64, b: u64) -> u64 {
    if a + b > u64::MAX {
        u64::MAX
    } else {
        (a + b) as u64
    }
}

/// No two entries share a key.
spec fn keys_unique(entries: Seq<(Vec<u8>, DnsEntry)>) -> bool {
    forall|p: int, q: int| 0 <= p < q < entries.len() ==> entries[p].0@ != entries[q].0@
}

/// Some entry is stored under this key.
spec fn seq_has(entries: Seq<(Vec<u8>, DnsEntry)>, domain: Seq<u8>) -> bool {
    exists|i: int| 0 <= i < entries.len() && entries[i].0@ == domain
}

/// The entry stored under this key (meaningful only when `seq_has` holds).
spec fn seq_entry(entries: Seq<(Vec<u8>, DnsEntry)>, domain: Seq<u8>) -> DnsEntry {
    entries[choose|i: int| 0 <= i < entries.len() && entries[i].0@ == domain].1
}

/// With unique keys, the entry at any index holding the key is the stored one.
proof fn lemma_entry_at(entries: Seq<(Vec<u8>, DnsEntry)>, i: int, domain: Seq<u8>)
    requires
        keys_unique(entries),
        0 <= i < entries.len(),
        entries[i].0@ == domain,
    ensures
        seq_has(entries, domain),
        seq_entry(entries, domain) == entries[i].1,
        forall|j: int| 0 <= j < entries.len() && entries[j].0@ == domain ==> j == i,
{
    assert forall|j: int| 0 <= j < entries.len() && entries[j].0@ == domain implies j == i by {
        if j < i {
            assert(entries[j].0@ != entries[i].0@);
        } else if i < j {
            assert(entries[i].0@ != entries[j].0@);
        }
    }
}

/// Removing the entry at `i` keeps every other entry, with indices shifted
/// down past `i`; uniqueness survives, and every key but the removed one keeps
/// its entry.
proof fn lemma_remove_entry(entries: Seq<(Vec<u8>, DnsEntry)>, i: int)
    requires
        keys_unique(entries),
        0 <= i < entries.len(),
    ensures
        keys_unique(entries.remove(i)),
        !seq_has(entries.remove(i), entries[i].0@),
        forall|d: Seq<u8>|
            d != entries[i].0@ ==> seq_has(entries.remove(i), d) == seq_has(entries, d),
        forall|d: Seq<u8>|
            d != entries[i].0@ && seq_has(entries, d) ==> seq_entry(entries.remove(i), d)
                == seq_entry(entries, d),
{
    let mid = entries.remove(i);
    let domain = entries[i].0@;
    assert forall|j: int| 0 <= j < mid.len() implies mid[j] == (if j < i {
        entries[j]
    } else {
        entries[j + 1]
    }) by {}
    lemma_entry_at(entries, i, domain);
    assert forall|j: int| 0 <= j < mid.len() implies mid[j].0@ != domain by {}
    assert forall|d: Seq<u8>| d != domain && seq_has(entries, d) implies seq_has(mid, d)
        && seq_entry(mid, d) == seq_entry(entries, d) by {
        let k = choose|k: int| 0 <= k < entries.len() && entries[k].0@ == d;
        lemma_entry_at(entries, k, d);
        let k2: int = if k < i {
            k
        } else {
            k - 1
        };
        assert(mid[k2] == entries[k]);
        lemma_entry_at(mid, k2, d);
    }
    assert forall|d: Seq<u8>| d != domain && seq_has(mid, d) implies seq_has(entries, d) by {
        let k = choose|k: int| 0 <= k < mid.len() && mid[k].0@ == d;
        let k2: int = if k < i {
            k
        } else {
            k + 1
        };
        assert(entries[k2].0@ == d);
    }
}

/// Appending an entry under a key that is absent keeps uniqueness, stores that
/// entry under the key, and leaves every other key's entry alone.
proof fn lemma_push_entry(entries: Seq<(Vec<u8>, DnsEntry)>, pair: (Vec<u8>, DnsEntry))
    requires
        keys_unique(entries),
        !seq_has(entries, pair.0@),
    ensures
        keys_unique(entries.push(pair)),
        seq_has(entries.push(pair), pair.0@),
        seq_entry(entries.push(pair), pair.0@) == pair.1,
        forall|d: Seq<u8>| d != pair.0@ ==> seq_has(entries.push(pair), d) == seq_has(entries, d),
        forall|d: Seq<u8>|
            d != pair.0@ && seq_has(entries, d) ==> seq_entry(entries.push(pair), d) == seq_entry(
                entries,
                d,
            ),
{
    let new = entries.push(pair);
    assert(new[new.len() - 1] == pair);
    assert forall|p: int, q: int| 0 <= p < q < new.len() implies new[p].0@ != new[q].0@ by {
        if q < new.len() - 1 {
            assert(new[p] == entries[p] && new[q] == entries[q]);
        } else {
            assert(new[p] == entries[p]);
            assert(entries[p].0@ != pair.0@);
        }
    }
    lemma_entry_at(new, new.len() - 1, pair.0@);
    assert forall|d: Seq<u8>| d != pair.0@ && seq_has(entries, d) implies seq_has(new, d)
        && seq_entry(new, d) == seq_entry(entries, d) by {
        let k = choose|k: int| 0 <= k < entries.len() && entries[k].0@ == d;
        lemma_entry_at(entries, k, d);
        assert(new[k] == entries[k]);
        lemma_entry_at(new, k, d);
    }
    assert forall|d: Seq<u8>| d != pair.0@ && seq_has(new, d) implies seq_has(entries, d) by {
        let k = choose|k: int| 0 <= k < new.len() && new[k].0@ == d;
        assert(k < entries.len() && entries[k].0@ == d);
    }
}

impl DnsResolver {
    /// Every domain occurs in at most one entry.
    pub closed spec fn wf(self) -> bool {
        keys_unique(self.entries@)
    }

    /// Whether some entry is stored under this domain, expired or not.
    pub closed spec fn spec_has(self, domain: Seq<u8>) -> bool {
        seq_has(self.entries@, domain)
    }

    /// The entry stored under this domain (meaningful only when
    /// [`DnsResolver::spec_has`] holds).
    pub closed spec fn spec_entry(self, domain: Seq<u8>) -> DnsEntry {
        seq_entry(self.entries@, domain)
    }

    /// Whether a query at `now` would be answered from the cache: an entry
    /// exists and has not expired.
    pub open spec fn spec_fresh(self, domain: Seq<u8>, now: u64) -> bool {
        self.spec_has(domain) && self.spec_entry(domain).expired_at > now
    }

    /// The configured entry lifetime, in seconds.
    pub closed spec fn spec_duration(self) -> u64 {
        self.dns_cache_duration
    }

    pub fn new() -> (r: DnsResolver)
        ensures
            r.wf(),
            forall|d: Seq<u8>| !r.spec_has(d),
            r.spec_duration() == DEFAULT_DNS_CACHE_SECS,
    {
        DnsResolver { entries: Vec::new(), dns_cache_duration: DEFAULT_DNS_CACHE_SECS }
    }

    /// Sets how long future entries stay valid.
    pub fn set_cache_timeout(&mut self, timeout: u64)
        requires
            old(self).wf(),
        ensures
            final (self).wf(),
            final (self).spec_duration() == timeout,
            forall|d: Seq<u8>| final (self).spec_has(d) == old(self).spec_has(d),
            forall|d: Seq<u8>| final (self).spec_entry(d) == old(self).spec_entry(d),
    {
        self.dns_cache_duration = timeout;
    }

    /// Finds the entry stored under `domain`, if any.
    fn find_entry(&self, domain: &[u8]) -> (r: Option<usize>)
        requires
            self.wf(),
        ensures
            match r {
                Some(i) => i < self.entries@.len() && self.entries@[i as int].0@ == domain@,
                None => !self.spec_has(domain@),
            },
    {
        let mut i: usize = 0;
        while i < self.entries.len()
            invariant
                i <= self.entries@.len(),
                forall|j: int| 0 <= j < i ==> self.entries@[j].0@ != domain@,
            decreases self.entries@.len() - i,
        {
            if crate::addr::bytes_eq(self.entries[i].0.as_slice(), domain) {
                return Some(i);
            }
            i += 1;
        }
        None
    }

    /// Stores (or refreshes) the resolution of `domain`, valid for the
    /// configured duration from `now` on. No other domain's entry changes.
    pub fn update_dns(&mut self, domain: &[u8], address: IpAddress, now: u64)
        requires
            old(self).wf(),
        ensures
            final (self).wf(),
            final (self).spec_has(domain@),
            final (self).spec_entry(domain@).address == address,
            final (self).spec_entry(domain@).expired_at == sat_add64(
                now,
                old(self).spec_duration(),
            ),
            final (self).spec_duration() == old(self).spec_duration(),
            forall|d: Seq<u8>| d != domain@ ==> final (self).spec_has(d) == old(self).spec_has(d),
            forall|d: Seq<u8>|
                d != domain@ && old(self).spec_has(d) ==> final (self).spec_entry(d) == old(
                    self,
                ).spec_entry(d),
    {
        let expired_at = now.saturating_add(self.dns_cache_duration);
        if let Some(i) = self.find_entry(domain) {
            proof {
                lemma_remove_entry(self.entries@, i as int);
            }
            self.entries.remove(i);
        }
        let key = vstd::slice::slice_to_vec(domain);
        proof {
            lemma_push_entry(self.entries@, (key, DnsEntry { address, expired_at }));
        }
        self.entries.push((key, DnsEntry { address, expired_at }));
    }

    /// Answers a query from the cache. Returns the cached address exactly when
    /// an entry exists whose expiry lies after `now`; an expired entry is
    /// evicted on the way. Nothing else changes.
    pub fn query_dns(&mut self, domain: &[u8], now: u64) -> (r: Option<IpAddress>)
        requires
            old(self).wf(),
        ensures
            final (self).wf(),
            r is Some <==> old(self).spec_fresh(domain@, now),
            r is Some ==> r->0 == old(self).spec_entry(domain@).address,
            final (self).spec_duration() == old(self).spec_duration(),
            final (self).spec_has(domain@) == old(self).spec_fresh(domain@, now),
            final (self).spec_has(domain@) ==> final (self).spec_entry(domain@) == old(
                self,
            ).spec_entry(domain@),
            forall|d: Seq<u8>| d != domain@ ==> final (self).spec_has(d) == old(self).spec_has(d),
            forall|d: Seq<u8>|
                d != domain@ && old(self).spec_has(d) ==> final (self).spec_entry(d) == old(
                    self,
                ).spec_entry(d),
    {
        if let Some(i) = self.find_entry(domain) {
            proof {
                lemma_entry_at(self.entries@, i as int, domain@);
            }
            let entry_expired_at = self.entries[i].1.expired_at;
            if entry_expired_at > now {
                let address = self.entries[i].1.address;
                Some(address)
            } else {
                proof {
                    lemma_remove_entry(self.entries@, i as int);
                }
                self.entries.remove(i);
                None
            }
        } else {
            None
        }
    }
}

/// Picks the address the relay will dial from what the system resolver
/// returned: the first IPv4 address if any, otherwise the first address.
pub fn select_preferred(ips: &Vec<IpAddress>) -> (r: Option<IpAddress>)
    ensures
        (r is Some) <==> ips@.len() > 0,
        (exists|i: int| 0 <= i < ips@.len() && ips@[i] is V4) ==> exists|i: int|
            {
                &&& 0 <= i < ips@.len()
                &&& ips@[i] is V4
                &&& r == Some(ips@[i])
                &&& forall|j: int| 0 <= j < i ==> !(ips@[j] is V4)
            },
        (forall|i: int| 0 <= i < ips@.len() ==> !(ips@[i] is V4)) && ips@.len() > 0 ==> r == Some(
            ips@[0],
        ),
{
    let mut i: usize = 0;
    while i < ips.len()
        invariant
            i <= ips@.len(),
            forall|j: int| 0 <= j < i ==> !(ips@[j] is V4),
        decreases ips@.len() - i,
    {
        match ips[i] {
            IpAddress::V4(_) => {
                return Some(ips[i]);
            },
            IpAddress::V6(_) => {},
        }
        i += 1;
    }
    if ips.len() > 0 {
        Some(ips[0])
    } else {
        None
    }
}

} // verus!
