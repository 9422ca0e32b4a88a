//! A bounded, time-expiring map from addresses to small counters.
//!
//! Entries live for the cache's time-to-live, counted from the write that
//! created or refreshed them.  The store is kept in write order, oldest
//! first; when a write would grow the cache past its capacity the oldest
//! entry is evicted.  Reads at a time past an entry's deadline behave as
//! if the entry were gone.

use vstd::prelude::*;

use crate::ip_addr::IpAddr;
use crate::keyed_limiter::sat_add;

verus! {

/// One cached entry: the address, its value, and the instant the entry
/// expires.
pub struct TtlEntry {
    pub ip: IpAddr,
    pub value: u32,
    pub deadline: u64,
}

/// Whether some entry carries `ip`.
pub open spec fn cache_has(s: Seq<TtlEntry>, ip: IpAddr) -> bool {
    exists|i: int| 0 <= i < s.len() && s[i].ip == ip
}

/// The index of the entry carrying `ip`.
pub open spec fn ip_index(s: Seq<TtlEntry>, ip: IpAddr) -> int {
    choose|i: int| 0 <= i < s.len() && s[i].ip == ip
}

/// What a read at time `now` returns: the stored value while the entry
/// is live, nothing once it has expired or was never written.
pub open spec fn cache_get(s: Seq<TtlEntry>, ip: IpAddr, now: u64) -> Option<u32> {
    if cache_has(s, ip) && now < s[ip_index(s, ip)].deadline {
        Some(s[ip_index(s, ip)].value)
    } else {
        None
    }
}

/// No two entries share an address.
pub open spec fn unique_ips(s: Seq<TtlEntry>) -> bool {
    forall|i: int, j: int| 0 <= i < j < s.len() ==> s[i].ip != s[j].ip
}

/// The entries after a write of `(ip, value)` with deadline `deadline`
/// into a cache holding `s` with capacity `cap`: a refresh moves the
/// entry to the young end, a fresh write appends, and a fresh write at
/// capacity evicts the oldest entry first.
pub open spec fn cache_after_insert(
    s: Seq<TtlEntry>,
    ip: IpAddr,
    value: u32,
    deadline: u64,
    cap: int,
) -> Seq<TtlEntry> {
    let e = TtlEntry { ip, value, deadline };
    if cache_has(s, ip) {
        s.remove(ip_index(s, ip)).push(e)
    } else if s.len() < cap {
        s.push(e)
    } else {
        s.skip(1).push(e)
    }
}

/// In a duplicate-free cache whose youngest entry owns `ip`, a read of
/// `ip` sees exactly that entry.
proof fn lemma_get_last(s: Seq<TtlEntry>, t2: u64)
    requires
        s.len() >= 1,
        unique_ips(s),
    ensures
        cache_get(s, s.last().ip, t2) == (if t2 < s.last().deadline {
            Some(s.last().value)
        } else {
            None::<u32>
        }),
{
    let n = s.len() as int;
    assert(s[n - 1].ip == s.last().ip);
    assert(cache_has(s, s.last().ip));
    let j = ip_index(s, s.last().ip);
    assert(0 <= j < s.len() && s[j].ip == s.last().ip);
    if j != n - 1 {
        assert(s[j].ip == s[n - 1].ip);
        assert(false);
    }
}

/// In a duplicate-free cache, a read of the key just written sees the
/// written value until its deadline and nothing from it onward.
pub proof fn lemma_after_insert_get(
    s: Seq<TtlEntry>,
    ip: IpAddr,
    value: u32,
    deadline: u64,
    cap: int,
    t2: u64,
)
    requires
        unique_ips(s),
        cap >= 1,
    ensures
        cache_get(cache_after_insert(s, ip, value, deadline, cap), ip, t2) == (if t2 < deadline {
            Some(value)
        } else {
            None::<u32>
        }),
{
    let e = TtlEntry { ip, value, deadline };
    if cache_has(s, ip) {
        let idx = ip_index(s, ip);
        assert(0 <= idx < s.len() && s[idx].ip == ip);
        let x = s.remove(idx);
        assert(forall|j: int|
            0 <= j < x.len() ==> #[trigger] x[j] == (if j < idx {
                s[j]
            } else {
                s[j + 1]
            }));
        assert(forall|j: int| 0 <= j < x.len() ==> #[trigger] x[j].ip != ip);
        let y = x.push(e);
        assert(unique_ips(y));
        assert(y.last() == e);
        lemma_get_last(y, t2);
        assert(cache_after_insert(s, ip, value, deadline, cap) == y);
    } else if s.len() < cap {
        let y = s.push(e);
        assert(forall|j: int| 0 <= j < s.len() ==> #[trigger] s[j].ip != ip);
        assert(unique_ips(y));
        assert(y.last() == e);
        lemma_get_last(y, t2);
    } else {
        let x = s.skip(1);
        assert(forall|j: int| 0 <= j < s.len() ==> #[trigger] s[j].ip != ip);
        assert(forall|j: int| 0 <= j < x.len() ==> #[trigger] x[j] == s[j + 1]);
        let y = x.push(e);
        assert(unique_ips(y));
        assert(y.last() == e);
        lemma_get_last(y, t2);
    }
}

pub struct TtlCache {
    entries: Vec<TtlEntry>,
    ttl_ns: u64,
    max_size: usize,
}

impl TtlCache {
    /// The entries in write order, oldest first.
    pub closed spec fn entries(&self) -> Seq<TtlEntry> {
        self.entries@
    }

    /// Nanoseconds an entry lives after the write that set it.
    pub closed spec fn ttl(&self) -> u64 {
        self.ttl_ns
    }

    pub closed spec fn cap(&self) -> int {
        self.max_size as int
    }

    pub open spec fn wf(&self) -> bool {
        &&& unique_ips(self.entries())
        &&& self.entries().len() <= self.cap()
        &&& self.cap() >= 1
    }

    pub fn new(initial_capacity: usize, max_size: usize, ttl_ns: u64) -> (r: TtlCache)
        requires
            1 <= max_size,
        ensures
            r.wf(),
            r.entries() == Seq::<TtlEntry>::empty(),
            r.ttl() == ttl_ns,
            r.cap() == max_size as int,
    {
        TtlCache { entries: Vec::with_capacity(initial_capacity), ttl_ns, max_size }
    }

    /// The index of the entry for `ip`, if one exists.
    fn find(&self, ip: &IpAddr) -> (r: Option<usize>)
        ensures
            match r {
                Some(i) => i < self.entries@.len() && self.entries@[i as int].ip == *ip,
                None => forall|i: int|
                    0 <= i < self.entries@.len() ==> self.entries@[i].ip != *ip,
            },
    {
        let mut i: usize = 0;
        while i < self.entries.len()
            invariant
                i <= self.entries@.len(),
                forall|j: int| 0 <= j < i ==> self.entries@[j].ip != *ip,
            decreases self.entries@.len() - i,
        {
            if self.entries[i].ip == *ip {
                return Some(i);
            }
            i = i + 1;
        }
        None
    }

    /// The live value for `ip` at time `now`.
    pub fn get(&self, ip: &IpAddr, now: u64) -> (r: Option<u32>)
        requires
            self.wf(),
        ensures
            r == cache_get(self.entries(), *ip, now),
    {
        match self.find(ip) {
            Some(i) => {
                proof {
                    assert(cache_has(self.entries@, *ip));
                    let j = ip_index(self.entries@, *ip);
                    assert(j == i as int);
                }
                if now < self.entries[i].deadline {
                    Some(self.entries[i].value)
                } else {
                    None
                }
            },
            None => {
                proof {
                    assert(!cache_has(self.entries@, *ip));
                }
                None
            },
        }
    }

    /// Whether `ip` has a live entry at time `now`.
    pub fn contains_key(&self, ip: &IpAddr, now: u64) -> (r: bool)
        requires
            self.wf(),
        ensures
            r == (cache_get(self.entries(), *ip, now) is Some),
    {
        self.get(ip, now).is_some()
    }

    /// Writes `value` for `ip` at time `now`: the entry's lifetime starts
    /// over, a refreshed entry moves to the young end, and when the cache
    /// is full the oldest entry makes room.
    pub fn insert(&mut self, ip: IpAddr, value: u32, now: u64)
        requires
            old(self).wf(),
        ensures
            final(self).wf(),
            final(self).ttl() == old(self).ttl(),
            final(self).cap() == old(self).cap(),
            final(self).entries() == cache_after_insert(
                old(self).entries(),
                ip,
                value,
                sat_add(now as int, old(self).ttl() as int),
                old(self).cap(),
            ),
            forall|t2: u64|
                #[trigger] cache_get(final(self).entries(), ip, t2) == (if t2 < sat_add(
                    now as int,
                    old(self).ttl() as int,
                ) {
                    Some(value)
                } else {
                    None::<u32>
                }),
    {
        let deadline: u64 = now.saturating_add(self.ttl_ns);
        let e = TtlEntry { ip, value, deadline };
        let ghost s = self.entries@;
        match self.find(&ip) {
            Some(i) => {
                proof {
                    assert(cache_has(s, ip));
                    let j = ip_index(s, ip);
                    assert(j == i as int);
                }
                let _ = self.entries.remove(i);
                self.entries.push(e);
                proof {
                    assert(self.entries@ =~= s.remove(i as int).push(e));
                    assert forall|a: int, b: int|
                        0 <= a < b < self.entries@.len() implies self.entries@[a].ip
                        != self.entries@[b].ip by {}
                }
            },
            None => {
                if self.entries.len() >= self.max_size {
                    let _ = self.entries.remove(0);
                    self.entries.push(e);
                    proof {
                        assert(self.entries@ =~= s.skip(1).push(e));
                        assert forall|a: int, b: int|
                            0 <= a < b < self.entries@.len() implies self.entries@[a].ip
                            != self.entries@[b].ip by {}
                    }
                } else {
                    self.entries.push(e);
                    proof {
                        assert(self.entries@ =~= s.push(e));
                    }
                }
            },
        }
        proof {
            assert(self.entries@.last() == e);
            assert forall|t2: u64|
                #[trigger] cache_get(self.entries@, ip, t2) == (if t2 < sat_add(
                    now as int,
                    self.ttl_ns as int,
                ) {
                    Some(value)
                } else {
                    None::<u32>
                }) by {
                lemma_get_last(self.entries@, t2);
            }
        }
    }
}

} // verus!
