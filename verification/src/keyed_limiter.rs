//! A per-key rate limiter following the generic cell rate algorithm.
//!
//! Each key owns a single 64-bit bucket value, its "theoretical arrival
//! time" in nanoseconds: the earliest virtual instant at which the next
//! event would fit the quota.  A check at virtual time `now` admits when
//! the bucket is at most `now + period - emission_interval` and then
//! advances the bucket; a denied check mutates nothing.  Idle buckets are
//! garbage-collected in amortized passes on the check path.

use vstd::prelude::*;

use crate::bytes::{bytes_eq, copy_bytes};

verus! {

/// One key's bucket: the key bytes and the theoretical arrival time.
pub struct Bucket {
    pub key: Vec<u8>,
    pub tat: u64,
}

/// The buckets as a mapping from key bytes to bucket value.
pub open spec fn as_map(s: Seq<Bucket>) -> Map<Seq<u8>, u64>
    decreases s.len(),
{
    if s.len() == 0 {
        Map::empty()
    } else {
        as_map(s.drop_last()).insert(s.last().key@, s.last().tat)
    }
}

/// No two buckets share a key.
pub open spec fn unique_keys(s: Seq<Bucket>) -> bool {
    forall|i: int, j: int| 0 <= i < j < s.len() ==> s[i].key@ != s[j].key@
}

/// What a garbage-collection pass at time `now` leaves: exactly the
/// buckets that are not yet fully replenished, with their values kept.
pub open spec fn gc_of(m: Map<Seq<u8>, u64>, now: u64) -> Map<Seq<u8>, u64> {
    Map::new(|k: Seq<u8>| m.contains_key(k) && m[k] > now, |k: Seq<u8>| m[k])
}

/// The bucket value a check sees: an absent key behaves as zero.
pub open spec fn tat_of(m: Map<Seq<u8>, u64>, k: Seq<u8>) -> int {
    if m.contains_key(k) {
        m[k] as int
    } else {
        0
    }
}

/// The admission rule: the bucket may run ahead of the clock by at most
/// `tol - ei` nanoseconds.
pub open spec fn gcra_admits(tat: int, now: u64, ei: u64, tol: u64) -> bool {
    tat <= now + tol - ei
}

/// Saturating addition into a u64.
pub open spec fn sat_add(a: int, b: int) -> u64 {
    if a + b >= u64::MAX {
        u64::MAX
    } else {
        (a + b) as u64
    }
}

/// The bucket value after an admission: one emission interval past the
/// later of the bucket and the clock.
pub open spec fn gcra_next(tat: int, now: u64, ei: u64) -> u64 {
    sat_add(if tat >= now { tat } else { now as int }, ei as int)
}

/// The collection threshold after a pass: twice the surviving population,
/// saturated at the machine word, and at least the initial capacity.
pub open spec fn next_threshold(init: int, count: int) -> int {
    let doubled = if 2 * count > usize::MAX {
        usize::MAX as int
    } else {
        2 * count
    };
    if doubled >= init {
        doubled
    } else {
        init
    }
}

/// The outcome of one check.
#[derive(Debug, Copy, Clone, PartialEq, Eq, Structural)]
pub enum Decision {
    Admitted,
    Denied,
}

proof fn lemma_as_map_found(s: Seq<Bucket>, i: int)
    requires
        unique_keys(s),
        0 <= i < s.len(),
    ensures
        as_map(s).contains_key(s[i].key@),
        as_map(s)[s[i].key@] == s[i].tat,
    decreases s.len(),
{
    if i < s.len() - 1 {
        assert(s.drop_last()[i] == s[i]);
        lemma_as_map_found(s.drop_last(), i);
    }
}

proof fn lemma_as_map_absent(s: Seq<Bucket>, k: Seq<u8>)
    requires
        forall|i: int| 0 <= i < s.len() ==> s[i].key@ != k,
    ensures
        !as_map(s).contains_key(k),
    decreases s.len(),
{
    if s.len() > 0 {
        lemma_as_map_absent(s.drop_last(), k);
    }
}

proof fn lemma_as_map_update(s: Seq<Bucket>, i: int, b: Bucket)
    requires
        unique_keys(s),
        0 <= i < s.len(),
        b.key@ == s[i].key@,
    ensures
        as_map(s.update(i, b)) == as_map(s).insert(b.key@, b.tat),
        unique_keys(s.update(i, b)),
    decreases s.len(),
{
    let s2 = s.update(i, b);
    assert(forall|j: int| 0 <= j < s.len() && j != i ==> s2[j] == s[j]);
    if i == s.len() - 1 {
        assert(s2.drop_last() =~= s.drop_last());
        assert(s2.last() == b);
        assert(as_map(s2) =~= as_map(s).insert(b.key@, b.tat));
    } else {
        assert(s2.drop_last() =~= s.drop_last().update(i, b));
        assert(s.drop_last()[i] == s[i]);
        lemma_as_map_update(s.drop_last(), i, b);
        assert(s.last().key@ != b.key@);
        assert(as_map(s2) =~= as_map(s).insert(b.key@, b.tat));
    }
}

/// A collection pass at time `t` removes exactly the buckets whose value
/// is at most `t`, keeps every other bucket's value, and changes no
/// admission decision taken at `t` or later.
pub proof fn lemma_gc_preserves_denials(
    m: Map<Seq<u8>, u64>,
    t: u64,
    t2: u64,
    k: Seq<u8>,
    ei: u64,
    tol: u64,
)
    requires
        t <= t2,
        ei <= tol,
    ensures
        forall|k2: Seq<u8>| #![auto]
            m.contains_key(k2) && m[k2] > t ==> gc_of(m, t).contains_key(k2) && gc_of(m, t)[k2]
                == m[k2],
        forall|k2: Seq<u8>| #![auto]
            m.contains_key(k2) && !gc_of(m, t).contains_key(k2) ==> m[k2] <= t,
        forall|k2: Seq<u8>| #![auto] gc_of(m, t).contains_key(k2) ==> m.contains_key(k2),
        gcra_admits(tat_of(gc_of(m, t), k), t2, ei, tol) == gcra_admits(tat_of(m, k), t2, ei, tol),
{
    if m.contains_key(k) && m[k] <= t {
        assert(!gc_of(m, t).contains_key(k));
        assert(tat_of(gc_of(m, t), k) == 0);
        assert(gcra_admits(0, t2, ei, tol));
        assert(gcra_admits(m[k] as int, t2, ei, tol));
    }
}

/// The number of admissions among `n` checks of one key, all at virtual
/// time `now`, starting from bucket value `tat`.
pub open spec fn gcra_run_admits(n: nat, tat: int, now: u64, ei: u64, tol: u64) -> nat
    decreases n,
{
    if n == 0 {
        0
    } else if gcra_admits(tat, now, ei, tol) {
        1 + gcra_run_admits((n - 1) as nat, gcra_next(tat, now, ei) as int, now, ei, tol)
    } else {
        gcra_run_admits((n - 1) as nat, tat, now, ei, tol)
    }
}

proof fn lemma_burst_helper(n: nat, a: nat, now: u64, burst: nat, ei: u64, tol: u64)
    requires
        1 <= ei,
        tol == burst * ei,
        a <= burst,
        now + tol < u64::MAX,
    ensures
        gcra_run_admits(n, now + a * ei, now, ei, tol) as int == (if n + a <= burst {
            n as int
        } else {
            burst - a
        }),
    decreases n,
{
    if n > 0 {
        let tat: int = now + a * ei;
        if a < burst {
            assert(a * ei + ei <= burst * ei) by (nonlinear_arith)
                requires
                    a < burst,
                    1 <= ei,
            ;
            assert(gcra_admits(tat, now, ei, tol));
            assert(gcra_next(tat, now, ei) == now + (a + 1) * ei) by (nonlinear_arith)
                requires
                    tat == now + a * ei,
                    a * ei + ei <= burst * ei,
                    tol == burst * ei,
                    now + tol < u64::MAX,
                    tat >= now,
            ;
            lemma_burst_helper((n - 1) as nat, a + 1, now, burst, ei, tol);
        } else {
            assert(a == burst);
            assert(!gcra_admits(tat, now, ei, tol));
            lemma_burst_helper((n - 1) as nat, a, now, burst, ei, tol);
        }
    }
}

/// The limiter admission law for a back-to-back burst: when the burst
/// divides the period evenly and no bucket saturates, `n` checks of one
/// fresh key at a single instant admit exactly `min(n, burst)` events and
/// deny the remaining `n - burst`.
pub proof fn lemma_limiter_burst_law(n: nat, now: u64, burst: u64, period: u64)
    requires
        1 <= burst,
        1 <= period,
        period as int % burst as int == 0,
        now + period < u64::MAX,
    ensures
        gcra_run_admits(n, 0, now, period / burst, period) as int == (if n <= burst {
            n as int
        } else {
            burst as int
        }),
        n - gcra_run_admits(n, 0, now, period / burst, period) == (if n <= burst {
            0int
        } else {
            n - burst
        }),
{
    let ei = period / burst;
    assert(period == burst * ei && ei >= 1) by (nonlinear_arith)
        requires
            1 <= burst,
            1 <= period,
            period as int % burst as int == 0,
            ei == period / burst,
    ;
    if n > 0 {
        assert(gcra_admits(0, now, ei, period));
        assert(gcra_next(0, now, ei) == now + 1 * (ei as int)) by (nonlinear_arith)
            requires
                ei >= 1,
                now + period < u64::MAX,
                period == burst * ei,
                burst >= 1,
                gcra_next(0, now, ei) == sat_add(now as int, ei as int),
        ;
        lemma_burst_helper((n - 1) as nat, 1, now, burst as nat, ei, period);
    }
}

/// The keyed limiter: bucket store, quota parameters, and the size
/// threshold that triggers the next amortized collection pass.
pub struct KeyedLimiter {
    buckets: Vec<Bucket>,
    emission_interval: u64,
    delay_tolerance: u64,
    initial_capacity: usize,
    next_gc_len: usize,
}

impl KeyedLimiter {
    /// The mapping from key bytes to bucket value.
    pub closed spec fn model(&self) -> Map<Seq<u8>, u64> {
        as_map(self.buckets@)
    }

    /// Nanoseconds one admission advances a bucket by.
    pub closed spec fn ei(&self) -> u64 {
        self.emission_interval
    }

    /// Nanoseconds a bucket may run ahead of the clock.
    pub closed spec fn tol(&self) -> u64 {
        self.delay_tolerance
    }

    pub closed spec fn init_cap(&self) -> int {
        self.initial_capacity as int
    }

    pub closed spec fn bucket_count(&self) -> int {
        self.buckets@.len() as int
    }

    pub closed spec fn gc_threshold(&self) -> int {
        self.next_gc_len as int
    }

    /// Whether the next check will run a collection pass first.
    pub open spec fn gc_pending(&self) -> bool {
        self.bucket_count() >= self.gc_threshold()
    }

    pub closed spec fn wf(&self) -> bool {
        &&& unique_keys(self.buckets@)
        &&& self.emission_interval <= self.delay_tolerance
    }

    /// A limiter admitting a burst of `burst` events per `period_ns`
    /// nanoseconds, spread evenly: one event per `period_ns / burst`.
    pub fn new(burst: u32, period_ns: u64, initial_capacity: usize) -> (r: KeyedLimiter)
        requires
            1 <= burst,
            1 <= period_ns,
        ensures
            r.wf(),
            r.model() == Map::<Seq<u8>, u64>::empty(),
            r.ei() == period_ns / (burst as u64),
            r.tol() == period_ns,
            r.bucket_count() == 0,
            r.init_cap() == initial_capacity as int,
            r.gc_threshold() == initial_capacity as int,
    {
        proof {
            assert(period_ns / (burst as u64) <= period_ns) by (nonlinear_arith)
                requires
                    1 <= burst,
            ;
        }
        KeyedLimiter {
            buckets: Vec::new(),
            emission_interval: period_ns / (burst as u64),
            delay_tolerance: period_ns,
            initial_capacity,
            next_gc_len: initial_capacity,
        }
    }

    /// Runs a collection pass when the store has reached the threshold:
    /// fully replenished buckets are dropped and the threshold becomes
    /// twice the surviving population, at least the initial capacity.
    pub fn maybe_gc(&mut self, now: u64)
        requires
            old(self).wf(),
        ensures
            final(self).wf(),
            final(self).ei() == old(self).ei(),
            final(self).tol() == old(self).tol(),
            final(self).init_cap() == old(self).init_cap(),
            old(self).gc_pending() ==> final(self).model() == gc_of(old(self).model(), now)
                && final(self).gc_threshold() == next_threshold(
                old(self).init_cap(),
                final(self).bucket_count(),
            ),
            !old(self).gc_pending() ==> final(self).model() == old(self).model()
                && final(self).gc_threshold() == old(self).gc_threshold()
                && final(self).bucket_count() == old(self).bucket_count(),
    {
        if self.buckets.len() >= self.next_gc_len {
            let ghost s = self.buckets@;
            let mut kept: Vec<Bucket> = Vec::new();
            let n: usize = self.buckets.len();
            let mut i: usize = 0;
            proof {
                assert(s.subrange(0, 0) =~= Seq::<Bucket>::empty());
            }
            while i < n
                invariant
                    i <= n,
                    n == s.len(),
                    self.buckets@ == s,
                    unique_keys(s),
                    unique_keys(kept@),
                    forall|k: Seq<u8>| #![auto]
                        as_map(kept@).contains_key(k) <==> (as_map(
                            s.subrange(0, i as int),
                        ).contains_key(k) && as_map(s.subrange(0, i as int))[k] > now),
                    forall|k: Seq<u8>| #![auto]
                        as_map(kept@).contains_key(k) ==> as_map(kept@)[k] == as_map(
                            s.subrange(0, i as int),
                        )[k],
                decreases n - i,
            {
                let ghost pfx = s.subrange(0, i as int);
                let ghost pfx2 = s.subrange(0, i + 1);
                let ghost cur = s[i as int];
                proof {
                    assert(pfx2.drop_last() =~= pfx);
                    assert(pfx2.last() == cur);
                    assert(forall|j: int| 0 <= j < i ==> pfx[j] == s[j]);
                    lemma_as_map_absent(pfx, cur.key@);
                    if as_map(kept@).contains_key(cur.key@) {
                        assert(as_map(pfx).contains_key(cur.key@));
                    }
                }
                if self.buckets[i].tat > now {
                    let b = Bucket {
                        key: copy_bytes(self.buckets[i].key.as_slice()),
                        tat: self.buckets[i].tat,
                    };
                    let ghost kept0 = kept@;
                    proof {
                        assert forall|j: int| 0 <= j < kept@.len() implies kept@[j].key@
                            != cur.key@ by {
                            lemma_as_map_found(kept@, j);
                        }
                    }
                    kept.push(b);
                    proof {
                        assert(kept@.drop_last() =~= kept0);
                        assert(kept@.last() == b);
                    }
                }
                i = i + 1;
            }
            proof {
                assert(s.subrange(0, n as int) =~= s);
            }
            self.buckets = kept;
            let count: usize = self.buckets.len();
            let doubled: usize = match count.checked_mul(2) {
                Some(d) => d,
                None => usize::MAX,
            };
            self.next_gc_len = if doubled >= self.initial_capacity {
                doubled
            } else {
                self.initial_capacity
            };
            proof {
                assert(self.model() =~= gc_of(as_map(s), now));
            }
        }
    }

    /// One admission check for `key` at virtual time `now`, preceded by
    /// the amortized collection pass.  The decision is a pure function of
    /// the key's bucket; an admission advances only that bucket, a denial
    /// mutates nothing, and no bucket value ever decreases.
    pub fn check_key(&mut self, key: &Vec<u8>, now: u64) -> (r: Decision)
        requires
            old(self).wf(),
        ensures
            final(self).wf(),
            final(self).ei() == old(self).ei(),
            final(self).tol() == old(self).tol(),
            final(self).init_cap() == old(self).init_cap(),
            ({
                let m1 = if old(self).gc_pending() {
                    gc_of(old(self).model(), now)
                } else {
                    old(self).model()
                };
                let t = tat_of(m1, key@);
                &&& (r == Decision::Admitted <==> gcra_admits(
                    t,
                    now,
                    old(self).ei(),
                    old(self).tol(),
                ))
                &&& (r == Decision::Admitted ==> final(self).model() == m1.insert(
                    key@,
                    gcra_next(t, now, old(self).ei()),
                ))
                &&& (r == Decision::Denied ==> final(self).model() == m1)
            }),
            forall|k: Seq<u8>| #![auto]
                old(self).model().contains_key(k) && final(self).model().contains_key(k) ==> old(
                    self,
                ).model()[k] <= final(self).model()[k],
    {
        self.maybe_gc(now);
        let ghost m1 = self.model();
        let found = self.find(key.as_slice());
        proof {
            if let Some(i) = found {
                lemma_as_map_found(self.buckets@, i as int);
            } else {
                lemma_as_map_absent(self.buckets@, key@);
            }
        }
        let tat: u64 = match found {
            Some(i) => self.buckets[i].tat,
            None => 0,
        };
        let admitted: bool = if tat <= now {
            true
        } else {
            tat - now <= self.delay_tolerance - self.emission_interval
        };
        if admitted {
            let base: u64 = if tat >= now {
                tat
            } else {
                now
            };
            let new_tat: u64 = base.saturating_add(self.emission_interval);
            let b = Bucket { key: copy_bytes(key.as_slice()), tat: new_tat };
            let ghost s1 = self.buckets@;
            match found {
                Some(i) => {
                    proof {
                        lemma_as_map_update(s1, i as int, b);
                    }
                    self.buckets[i] = b;
                    proof {
                        assert(self.buckets@ == s1.update(i as int, b));
                    }
                },
                None => {
                    self.buckets.push(b);
                    proof {
                        assert(self.buckets@.drop_last() =~= s1);
                        assert(self.buckets@.last() == b);
                        assert(unique_keys(self.buckets@));
                    }
                },
            }
            proof {
                assert(self.model() == m1.insert(key@, new_tat));
            }
            Decision::Admitted
        } else {
            Decision::Denied
        }
    }

    /// The index of the bucket for `key`, if one exists.
    fn find(&self, key: &[u8]) -> (r: Option<usize>)
        ensures
            match r {
                Some(i) => i < self.buckets@.len() && self.buckets@[i as int].key@ == key@,
                None => forall|i: int|
                    0 <= i < self.buckets@.len() ==> self.buckets@[i].key@ != key@,
            },
    {
        let mut i: usize = 0;
        while i < self.buckets.len()
            invariant
                i <= self.buckets@.len(),
                forall|j: int| 0 <= j < i ==> self.buckets@[j].key@ != key@,
            decreases self.buckets@.len() - i,
        {
            if bytes_eq(self.buckets[i].key.as_slice(), key) {
                return Some(i);
            }
            i = i + 1;
        }
        None
    }
}

} // verus!
