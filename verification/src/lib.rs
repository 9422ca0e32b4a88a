//! Log-driven IP banning library.
//!
//! The pipeline reads candidate lines, rate-limits them per key, and for
//! sources that exceed their budget builds a transactional netlink batch
//! that installs a timed ban entry into a kernel nftables set.  Everything
//! here is pure computation over plain values; the caller owns the socket
//! and the clock, passes the current monotonic time in, and feeds the
//! kernel's responses back.

use vstd::prelude::*;

pub mod ack;
pub mod bytes;
pub mod ip_addr;
pub mod ip_family;
pub mod ip_parse;
pub mod keyed_limiter;
pub mod masked_ip;
pub mod nftnl;
pub mod ttl_cache;

use crate::ip_addr::{ip_octets, IpAddr};
use crate::ip_family::ByIpFamily;
use crate::ip_parse::spec_parse_ip;
use crate::keyed_limiter::{gc_of, gcra_admits, gcra_next, tat_of, Decision, KeyedLimiter};
use crate::nftnl::{
    batch_ctl_msg, elem_payload, elems_payload, nlattr, seq_next, set_elems_msg, set_fits,
    NftnlSet, NftnlSetElem, NlmsgBatch, SeqNum, NFNL_MSG_BATCH_BEGIN, NFNL_MSG_BATCH_END,
    NFNL_SUBSYS_NFTABLES, NFPROTO_INET, NFTA_LIST_ELEM, NFT_MSG_DELSETELEM, NFT_MSG_NEWSETELEM,
    NLA_F_NESTED, NLM_F_ACK, NLM_F_CREATE, NLM_F_REQUEST,
};
use crate::bytes::copy_bytes;
use crate::keyed_limiter::sat_add;
use crate::ttl_cache::{cache_after_insert, cache_get, TtlCache};

verus! {

/// Saturating multiplication into a u64.
pub open spec fn sat_mul(a: int, b: int) -> u64 {
    if a * b > u64::MAX {
        u64::MAX
    } else if a * b < 0 {
        0
    } else {
        (a * b) as u64
    }
}

/// The pipeline's configuration.  Times that feed the clock comparisons
/// (`bl_period`, `ipset_ban_ttl`, the reporting periods) are nanoseconds;
/// `ipset_base_time` is milliseconds, the kernel's timeout unit.
pub struct Args {
    /// Events admitted per `bl_period` before lines are banned.  Zero
    /// means ban on sight: no limiter at all.
    pub bl_threshold: u32,
    /// Nanoseconds over which the full burst replenishes.
    pub bl_period: u64,
    /// Nanoseconds a source must stay clean for its ban count to be
    /// forgotten.
    pub ipset_ban_ttl: u64,
    /// Milliseconds of a first ban; the k-th ban lasts k times as long.
    pub ipset_base_time: u64,
    /// The nftables table holding both sets (family `inet`).
    pub table: Vec<u8>,
    /// The set for v4 addresses in `table`.
    pub ipset_ipv4_name: Vec<u8>,
    /// The set for v6 addresses in `table`.
    pub ipset_ipv6_name: Vec<u8>,
    /// Nanoseconds between ban-rate reports.
    pub reporting_ban_time_period: u64,
    /// Nanoseconds between line-rate reports.
    pub reporting_ip_time_period: u64,
    /// Initial capacity of the limiter table and the caches.
    pub cache_initial_capacity: usize,
    /// Entry cap of both caches.
    pub cache_max_size: usize,
    /// Build batches but let the caller skip the kernel exchange; cache
    /// updates proceed as if every ban succeeded.
    pub dry_run: bool,
}

/// The wire format forces bounded names: each name attribute carries the
/// name, its terminating zero and a four-byte header within a 16-bit
/// length.
pub open spec fn args_wf(args: Args) -> bool {
    &&& args.table@.len() + 5 <= 0xFFFF
    &&& args.ipset_ipv4_name@.len() + 5 <= 0xFFFF
    &&& args.ipset_ipv6_name@.len() + 5 <= 0xFFFF
}

impl Args {
    /// Milliseconds of the `ban_count`-th ban: linear in the count,
    /// saturating.
    pub fn time_to_ban(&self, ban_count: u32) -> (r: u64)
        ensures
            r == sat_mul(self.ipset_base_time as int, ban_count as int),
    {
        match self.ipset_base_time.checked_mul(ban_count as u64) {
            Some(t) => t,
            None => u64::MAX,
        }
    }
}

/// The suppression cache must forget an address one second before the
/// kernel's own countdown for a first ban ends, never negative.
pub open spec fn spec_suppression_ttl_ns(base_ms: u64) -> u64 {
    sat_mul(if base_ms >= 1000 { base_ms - 1000 } else { 0 }, 1_000_000)
}

fn suppression_ttl_ns(base_ms: u64) -> (r: u64)
    ensures
        r == spec_suppression_ttl_ns(base_ms),
{
    let s = if base_ms >= 1000 {
        base_ms - 1000
    } else {
        0
    };
    match s.checked_mul(1_000_000) {
        Some(t) => t,
        None => u64::MAX,
    }
}

/// A rejected configuration.
#[derive(Debug, Copy, Clone, PartialEq, Eq, Structural)]
pub enum ConfigError {
    /// A positive threshold needs a positive replenishment period.
    ZeroBlPeriod,
}

/// One ban, ready for the kernel: the batch to transmit and the facts it
/// was built from.
pub struct BanRequest {
    pub ip: IpAddr,
    /// How many bans this address has now accumulated, this one included.
    pub recidivism: u32,
    /// The timeout carried by the new element, in milliseconds.
    pub timeout_ms: u64,
    /// The whole batch, ready for a single send.
    pub bytes: Vec<u8>,
    /// The sequence number the kernel's acknowledgement must carry.
    pub expected_seq: u32,
}

/// What a ban attempt did.
pub enum BanOutcome {
    /// A live suppression entry says the address is already banned
    /// kernel-side: no batch was built, nothing changed.
    AlreadyBanned,
    /// A batch was built.  In dry-run mode the caches are already
    /// updated; otherwise the caller transmits the batch, validates the
    /// acknowledgements, and then commits.
    Submitted(BanRequest),
}

/// What one line did.
pub enum LineOutcome {
    /// The limiter admitted the line: within budget, no ban.
    UnderLimit,
    /// The line was over budget but is not an address.
    ParseFailed,
    /// The address is already banned kernel-side.
    AlreadyBanned,
    /// A ban batch was built for the address.
    Banned(BanRequest),
}

/// A line-rate report: how many lines arrived since the last report.
pub struct LineReport {
    pub lines: u64,
    pub since_ns: u64,
}

/// The result of one line: its outcome and a rate report when one came
/// due.
pub struct LineResult {
    pub outcome: LineOutcome,
    pub report: Option<LineReport>,
}

/// The bytes of the whole five-message ban batch: begin, a create that
/// makes the delete below safe, a delete that clears any prior timeout,
/// the acknowledged add with the new timeout, end.
pub open spec fn ban_batch_bytes(
    table: Seq<u8>,
    name: Seq<u8>,
    ip: IpAddr,
    timeout_ms: u64,
    seq0: u32,
) -> Seq<u8> {
    let elems = single_elem_attrs(ip_octets(ip), timeout_ms);
    let s1 = seq_next(seq0);
    let s2 = seq_next(s1);
    let s3 = seq_next(s2);
    let s4 = seq_next(s3);
    let s5 = seq_next(s4);
    batch_ctl_msg(NFNL_MSG_BATCH_BEGIN, s1) + set_elems_msg(
        NFT_MSG_NEWSETELEM,
        NFPROTO_INET,
        NLM_F_CREATE | NLM_F_REQUEST,
        s2,
        table,
        name,
        elems,
    ) + set_elems_msg(
        NFT_MSG_DELSETELEM,
        NFPROTO_INET,
        NLM_F_CREATE | NLM_F_REQUEST,
        s3,
        table,
        name,
        elems,
    ) + set_elems_msg(
        NFT_MSG_NEWSETELEM,
        NFPROTO_INET,
        NLM_F_CREATE | NLM_F_REQUEST | NLM_F_ACK,
        s4,
        table,
        name,
        elems,
    ) + batch_ctl_msg(NFNL_MSG_BATCH_END, s5)
}

/// The element list of a ban batch: one element, the address octets as
/// its key and the timeout in milliseconds.
pub open spec fn single_elem_attrs(key: Seq<u8>, timeout_ms: u64) -> Seq<u8> {
    nlattr(NFTA_LIST_ELEM | NLA_F_NESTED, elem_payload(key, Some(timeout_ms)))
}

/// The sequence number of the acknowledged message of a ban batch built
/// on a counter standing at `seq0`.
pub open spec fn ban_expected_seq(seq0: u32) -> u32 {
    seq_next(seq_next(seq_next(seq_next(seq0))))
}

/// The counter after a ban batch: five messages past `seq0`.
pub open spec fn ban_final_seq(seq0: u32) -> u32 {
    seq_next(ban_expected_seq(seq0))
}

/// A ban-rate report: how many bans were installed since the last
/// report.
pub struct BanReport {
    pub bans: u64,
    pub since_ns: u64,
}

/// The set name a ban for `ip` goes to.
pub open spec fn set_name_for(args: Args, ip: IpAddr) -> Seq<u8> {
    if ip is V4 {
        args.ipset_ipv4_name@
    } else {
        args.ipset_ipv6_name@
    }
}

/// Nothing a ban could touch changed.
pub open spec fn ban_state_unchanged(pre: Leroy, post: Leroy) -> bool {
    &&& post.suppression() == pre.suppression()
    &&& post.recidivism() == pre.recidivism()
    &&& post.ban_count() == pre.ban_count()
    &&& post.batch_seq() == pre.batch_seq()
    &&& post.batch_bytes() == pre.batch_bytes()
}

/// The caches and the ban counter after a committed ban: a fresh
/// suppression entry, the new ban count under its refreshed window, one
/// more ban counted.
pub open spec fn committed(pre: Leroy, post: Leroy, ip: IpAddr, recidivism: u32, now: u64) -> bool {
    &&& post.suppression() == cache_after_insert(
        pre.suppression(),
        ip,
        0,
        sat_add(now as int, spec_suppression_ttl_ns(pre.args().ipset_base_time) as int),
        pre.suppression_cap(),
    )
    &&& post.recidivism() == cache_after_insert(
        pre.recidivism(),
        ip,
        recidivism,
        sat_add(now as int, pre.args().ipset_ban_ttl as int),
        pre.recidivism_cap(),
    )
    &&& post.ban_count() == (if pre.ban_count() == u64::MAX {
        0u64
    } else {
        (pre.ban_count() + 1) as u64
    })
}

/// Everything a submitted ban promises: the request carries the address,
/// the ban count it has now reached, the timeout scaled linearly from
/// the base time, and the exact five-message batch; the counter advanced
/// past the batch; in dry-run mode the ban is already committed.
pub open spec fn ban_submitted(
    pre: Leroy,
    post: Leroy,
    ip: IpAddr,
    now: u64,
    req: BanRequest,
) -> bool {
    let r32 = pre.next_recidivism(ip, now);
    let t = sat_mul(pre.args().ipset_base_time as int, r32 as int);
    &&& req.ip == ip
    &&& req.recidivism == r32
    &&& req.timeout_ms == t
    &&& req.bytes@ == ban_batch_bytes(
        pre.args().table@,
        set_name_for(pre.args(), ip),
        ip,
        t,
        pre.batch_seq(),
    )
    &&& req.expected_seq == ban_expected_seq(pre.batch_seq())
    &&& post.batch_seq() == ban_final_seq(pre.batch_seq())
    &&& post.batch_bytes() == req.bytes@
    &&& (pre.args().dry_run ==> committed(pre, post, ip, r32, now))
    &&& (!pre.args().dry_run ==> post.suppression() == pre.suppression() && post.recidivism()
        == pre.recidivism() && post.ban_count() == pre.ban_count())
}

/// Whether the limiter sends this line down the ban path: there is no
/// limiter at all, or the line's bucket denies it.
pub open spec fn limiter_denies(pre: Leroy, line: Seq<u8>, now: u64) -> bool {
    match pre.limiter_ref() {
        None => true,
        Some(l0) => {
            let m1 = if l0.gc_pending() {
                gc_of(l0.model(), now)
            } else {
                l0.model()
            };
            !gcra_admits(tat_of(m1, line), now, l0.ei(), l0.tol())
        },
    }
}

/// How one check for `line` moves the limiter: the amortized collection
/// first, then the checked bucket advances on admission and nothing
/// moves on denial.
pub open spec fn limiter_stepped(pre: Leroy, post: Leroy, line: Seq<u8>, now: u64) -> bool {
    match (pre.limiter_ref(), post.limiter_ref()) {
        (Option::None, Option::None) => true,
        (Option::Some(l0), Option::Some(l1)) => {
            let m1 = if l0.gc_pending() {
                gc_of(l0.model(), now)
            } else {
                l0.model()
            };
            let t = tat_of(m1, line);
            l1.ei() == l0.ei() && l1.tol() == l0.tol() && (if gcra_admits(
                t,
                now,
                l0.ei(),
                l0.tol(),
            ) {
                l1.model() == m1.insert(line, gcra_next(t, now, l0.ei()))
            } else {
                l1.model() == m1
            })
        },
        _ => false,
    }
}

/// One message of a ban batch: its netlink type and sequence number.
pub struct MsgDesc {
    pub ty: u16,
    pub seq: u32,
}

/// The five messages of a ban batch, in transmission order.
pub open spec fn ban_batch_msgs(seq0: u32) -> Seq<MsgDesc> {
    let s1 = seq_next(seq0);
    let s2 = seq_next(s1);
    let s3 = seq_next(s2);
    let s4 = seq_next(s3);
    let s5 = seq_next(s4);
    seq![
        MsgDesc { ty: NFNL_MSG_BATCH_BEGIN, seq: s1 },
        MsgDesc { ty: (NFNL_SUBSYS_NFTABLES << 8) | NFT_MSG_NEWSETELEM, seq: s2 },
        MsgDesc { ty: (NFNL_SUBSYS_NFTABLES << 8) | NFT_MSG_DELSETELEM, seq: s3 },
        MsgDesc { ty: (NFNL_SUBSYS_NFTABLES << 8) | NFT_MSG_NEWSETELEM, seq: s4 },
        MsgDesc { ty: NFNL_MSG_BATCH_END, seq: s5 },
    ]
}

/// Batch framing: every ban batch opens with exactly one batch-begin,
/// closes with exactly one batch-end, and stamps strictly increasing
/// sequence numbers on its five messages (strict so long as the counter
/// does not wrap), and its bytes are exactly those messages in order.
pub proof fn lemma_batch_framing(
    table: Seq<u8>,
    name: Seq<u8>,
    ip: IpAddr,
    timeout_ms: u64,
    seq0: u32,
)
    requires
        seq0 + 5 <= u32::MAX,
    ensures
        ({
            let ms = ban_batch_msgs(seq0);
            let elems = single_elem_attrs(ip_octets(ip), timeout_ms);
            &&& ms.len() == 5
            &&& ms[0].ty == NFNL_MSG_BATCH_BEGIN
            &&& ms[4].ty == NFNL_MSG_BATCH_END
            &&& forall|i: int|
                1 <= i <= 3 ==> #[trigger] ms[i].ty != NFNL_MSG_BATCH_BEGIN && ms[i].ty
                    != NFNL_MSG_BATCH_END
            &&& forall|i: int, j: int| 0 <= i < j < 5 ==> ms[i].seq < ms[j].seq
            &&& ban_batch_bytes(table, name, ip, timeout_ms, seq0) == batch_ctl_msg(
                ms[0].ty,
                ms[0].seq,
            ) + set_elems_msg(
                NFT_MSG_NEWSETELEM,
                NFPROTO_INET,
                NLM_F_CREATE | NLM_F_REQUEST,
                ms[1].seq,
                table,
                name,
                elems,
            ) + set_elems_msg(
                NFT_MSG_DELSETELEM,
                NFPROTO_INET,
                NLM_F_CREATE | NLM_F_REQUEST,
                ms[2].seq,
                table,
                name,
                elems,
            ) + set_elems_msg(
                NFT_MSG_NEWSETELEM,
                NFPROTO_INET,
                NLM_F_CREATE | NLM_F_REQUEST | NLM_F_ACK,
                ms[3].seq,
                table,
                name,
                elems,
            ) + batch_ctl_msg(ms[4].ty, ms[4].seq)
        }),
{
    assert((NFNL_SUBSYS_NFTABLES << 8) | NFT_MSG_NEWSETELEM == 0x0A0Cu16) by (bit_vector);
    assert((NFNL_SUBSYS_NFTABLES << 8) | NFT_MSG_DELSETELEM == 0x0A0Eu16) by (bit_vector);
}

/// Suppression idempotence: once a ban for `ip` is committed, any ban
/// attempt while the suppression entry is live finds the address
/// suppressed, so at most one kernel submission takes place.
pub proof fn lemma_suppression_idempotent(
    pre: Leroy,
    post: Leroy,
    ip: IpAddr,
    recidivism: u32,
    now1: u64,
    now2: u64,
)
    requires
        pre.wf(),
        committed(pre, post, ip, recidivism, now1),
        now2 < sat_add(
            now1 as int,
            spec_suppression_ttl_ns(pre.args().ipset_base_time) as int,
        ),
    ensures
        post.suppressed(ip, now2),
{
    crate::ttl_cache::lemma_after_insert_get(
        pre.suppression(),
        ip,
        0,
        sat_add(now1 as int, spec_suppression_ttl_ns(pre.args().ipset_base_time) as int),
        pre.suppression_cap(),
        now2,
    );
}

/// Recidivism linearity, step form: after the k-th ban of `ip` is
/// committed, a ban attempt within the recidivism window reaches count
/// `k + 1`, and so installs the timeout `(k + 1) · base` (saturating),
/// as `ban` promises through `next_recidivism`.
pub proof fn lemma_recidivism_linearity(
    pre: Leroy,
    post: Leroy,
    ip: IpAddr,
    k: u32,
    now1: u64,
    now2: u64,
)
    requires
        pre.wf(),
        committed(pre, post, ip, k, now1),
        now2 < sat_add(now1 as int, pre.args().ipset_ban_ttl as int),
        k < u32::MAX,
    ensures
        post.next_recidivism(ip, now2) == k + 1,
{
    crate::ttl_cache::lemma_after_insert_get(
        pre.recidivism(),
        ip,
        k,
        sat_add(now1 as int, pre.args().ipset_ban_ttl as int),
        pre.recidivism_cap(),
        now2,
    );
}

/// The pipeline: limiter, the two caches, the reusable batch, and the
/// observability counters.
pub struct Leroy {
    limiter: Option<KeyedLimiter>,
    ipset_cache: TtlCache,
    recidivism_counts: TtlCache,
    nlmsg_batch: NlmsgBatch,
    line_count: u64,
    line_count_start: u64,
    ban_count: u64,
    ban_count_start: u64,
    args: Args,
}

impl Leroy {
    pub closed spec fn args(&self) -> Args {
        self.args
    }

    /// The limiter's bucket map, or nothing in ban-on-sight mode.
    pub closed spec fn limiter_model(&self) -> Option<Map<Seq<u8>, u64>> {
        match self.limiter {
            Some(l) => Some(l.model()),
            None => None,
        }
    }

    pub closed spec fn limiter_ref(&self) -> Option<KeyedLimiter> {
        self.limiter
    }

    /// The suppression cache's entries.
    pub closed spec fn suppression(&self) -> Seq<crate::ttl_cache::TtlEntry> {
        self.ipset_cache.entries()
    }

    /// The recidivism cache's entries.
    pub closed spec fn recidivism(&self) -> Seq<crate::ttl_cache::TtlEntry> {
        self.recidivism_counts.entries()
    }

    pub closed spec fn batch_seq(&self) -> u32 {
        self.nlmsg_batch.spec_seq().0
    }

    pub closed spec fn batch_bytes(&self) -> Seq<u8> {
        self.nlmsg_batch.bytes()
    }

    pub closed spec fn line_count(&self) -> u64 {
        self.line_count
    }

    pub closed spec fn ban_count(&self) -> u64 {
        self.ban_count
    }

    /// Whether a ban for `ip` at time `now` is suppressed: the address
    /// has a live entry in the suppression cache.
    pub open spec fn suppressed(&self, ip: IpAddr, now: u64) -> bool {
        cache_get(self.suppression(), ip, now) is Some
    }

    /// The ban count this address would reach with one more ban at `now`.
    pub open spec fn next_recidivism(&self, ip: IpAddr, now: u64) -> u32 {
        match cache_get(self.recidivism(), ip, now) {
            Some(r) => if r == u32::MAX {
                u32::MAX
            } else {
                (r + 1) as u32
            },
            None => 1,
        }
    }

    pub closed spec fn wf(&self) -> bool {
        &&& args_wf(self.args)
        &&& match self.limiter {
            Some(l) => l.wf() && l.ei() == self.args.bl_period / (self.args.bl_threshold as u64)
                && l.tol() == self.args.bl_period && self.args.bl_threshold >= 1,
            None => self.args.bl_threshold == 0,
        }
        &&& self.ipset_cache.wf()
        &&& self.ipset_cache.ttl() == spec_suppression_ttl_ns(self.args.ipset_base_time)
        &&& self.recidivism_counts.wf()
        &&& self.recidivism_counts.ttl() == self.args.ipset_ban_ttl
    }

    pub closed spec fn line_count_start(&self) -> u64 {
        self.line_count_start
    }

    pub closed spec fn ban_count_start(&self) -> u64 {
        self.ban_count_start
    }

    pub closed spec fn suppression_cap(&self) -> int {
        self.ipset_cache.cap()
    }

    pub closed spec fn recidivism_cap(&self) -> int {
        self.recidivism_counts.cap()
    }

    /// Builds the pipeline.  A positive threshold with a zero period is
    /// the one rejected configuration; `now` seeds the report clocks.
    pub fn new(args: Args, now: u64) -> (r: Result<Leroy, ConfigError>)
        requires
            args_wf(args),
        ensures
            r matches Err(e) ==> e == ConfigError::ZeroBlPeriod && args.bl_threshold > 0
                && args.bl_period == 0,
            r matches Ok(leroy) ==> ({
                &&& leroy.wf()
                &&& !(args.bl_threshold > 0 && args.bl_period == 0)
                &&& leroy.args() == args
                &&& (leroy.limiter_model() is Some <==> args.bl_threshold > 0)
                &&& leroy.limiter_model() matches Some(m) ==> m == Map::<Seq<u8>, u64>::empty()
                &&& leroy.suppression() == Seq::<crate::ttl_cache::TtlEntry>::empty()
                &&& leroy.recidivism() == Seq::<crate::ttl_cache::TtlEntry>::empty()
                &&& leroy.batch_seq() == 0
                &&& leroy.line_count() == 0
                &&& leroy.ban_count() == 0
            }),
    {
        let cache_cap: usize = if args.cache_max_size == 0 {
            1
        } else {
            args.cache_max_size
        };
        let limiter: Option<KeyedLimiter> = if args.bl_threshold > 0 {
            if args.bl_period == 0 {
                return Err(ConfigError::ZeroBlPeriod);
            }
            Some(
                KeyedLimiter::new(args.bl_threshold, args.bl_period, args.cache_initial_capacity),
            )
        } else {
            // Ban on sight.
            None
        };
        let sup_ttl = suppression_ttl_ns(args.ipset_base_time);
        let ipset_cache = TtlCache::new(args.cache_initial_capacity, cache_cap, sup_ttl);
        let recidivism_counts = TtlCache::new(args.cache_initial_capacity, cache_cap, args.ipset_ban_ttl);
        Ok(
            Leroy {
                limiter,
                ipset_cache,
                recidivism_counts,
                nlmsg_batch: NlmsgBatch::new(SeqNum(0)),
                line_count: 0,
                line_count_start: now,
                ban_count: 0,
                ban_count_start: now,
                args,
            },
        )
    }

    /// Writes the two cache entries of a successful ban and counts it.
    /// In dry-run mode `ban` does this itself; otherwise the caller does
    /// it once the kernel has acknowledged the batch.
    pub fn commit_ban(&mut self, ip: IpAddr, recidivism: u32, now: u64)
        requires
            old(self).wf(),
        ensures
            final(self).wf(),
            final(self).args() == old(self).args(),
            final(self).limiter_ref() == old(self).limiter_ref(),
            final(self).batch_seq() == old(self).batch_seq(),
            final(self).batch_bytes() == old(self).batch_bytes(),
            final(self).line_count() == old(self).line_count(),
            final(self).line_count_start() == old(self).line_count_start(),
            final(self).ban_count_start() == old(self).ban_count_start(),
            final(self).suppression_cap() == old(self).suppression_cap(),
            final(self).recidivism_cap() == old(self).recidivism_cap(),
            committed(*old(self), *final(self), ip, recidivism, now),
            forall|t2: u64|
                #[trigger] cache_get(final(self).suppression(), ip, t2) == (if t2 < sat_add(
                    now as int,
                    spec_suppression_ttl_ns(old(self).args().ipset_base_time) as int,
                ) {
                    Some(0u32)
                } else {
                    None::<u32>
                }),
            forall|t2: u64|
                #[trigger] cache_get(final(self).recidivism(), ip, t2) == (if t2 < sat_add(
                    now as int,
                    old(self).args().ipset_ban_ttl as int,
                ) {
                    Some(recidivism)
                } else {
                    None::<u32>
                }),
    {
        self.ipset_cache.insert(ip, 0, now);
        self.recidivism_counts.insert(ip, recidivism, now);
        self.ban_count = self.ban_count.wrapping_add(1);
    }

    /// One ban attempt for `ip` at time `now`.  A live suppression entry
    /// makes it a no-op; otherwise the five-message batch is built on the
    /// running sequence counter and returned.
    pub fn ban(&mut self, ip: IpAddr, now: u64) -> (r: BanOutcome)
        requires
            old(self).wf(),
        ensures
            final(self).wf(),
            final(self).args() == old(self).args(),
            final(self).limiter_ref() == old(self).limiter_ref(),
            final(self).line_count() == old(self).line_count(),
            final(self).line_count_start() == old(self).line_count_start(),
            final(self).ban_count_start() == old(self).ban_count_start(),
            (r is AlreadyBanned) <==> old(self).suppressed(ip, now),
            r is AlreadyBanned ==> ban_state_unchanged(*old(self), *final(self)),
            r matches BanOutcome::Submitted(req) ==> ban_submitted(
                *old(self),
                *final(self),
                ip,
                now,
                req,
            ),
    {
        if self.ipset_cache.contains_key(&ip, now) {
            return BanOutcome::AlreadyBanned;
        }
        let recidivism: u32 = match self.recidivism_counts.get(&ip, now) {
            Some(r) => if r == u32::MAX {
                u32::MAX
            } else {
                r + 1
            },
            None => 1,
        };
        let timeout_ms = self.args.time_to_ban(recidivism);

        let mut set = NftnlSet::new();
        set.set_table(self.args.table.as_slice());
        if ip.is_ipv4() {
            set.set_name(self.args.ipset_ipv4_name.as_slice());
        } else {
            set.set_name(self.args.ipset_ipv6_name.as_slice());
        }
        let mut elem = NftnlSetElem::new();
        elem.set_key(&ip);
        elem.set_timeout(timeout_ms);
        let ghost ev = elem;
        set.add(elem);
        proof {
            assert(set.elems@.len() == 1);
            assert(set.elems@.drop_last() =~= Seq::<NftnlSetElem>::empty());
            assert(set.elems@.last() == ev);
            assert(ev.key@ == ip_octets(ip));
            assert(ev.timeout_ms == Some(timeout_ms));
            assert(elems_payload(set.elems@) == elems_payload(set.elems@.drop_last()) + nlattr(
                NFTA_LIST_ELEM | NLA_F_NESTED,
                elem_payload(set.elems@.last().key@, set.elems@.last().timeout_ms),
            ));
            assert(elems_payload(Seq::<NftnlSetElem>::empty()) == Seq::<u8>::empty());
            assert(elems_payload(set.elems@) == Seq::<u8>::empty() + nlattr(
                NFTA_LIST_ELEM | NLA_F_NESTED,
                elem_payload(ip_octets(ip), Some(timeout_ms)),
            ));
            assert(Seq::<u8>::empty() + nlattr(
                NFTA_LIST_ELEM | NLA_F_NESTED,
                elem_payload(ip_octets(ip), Some(timeout_ms)),
            ) =~= nlattr(
                NFTA_LIST_ELEM | NLA_F_NESTED,
                elem_payload(ip_octets(ip), Some(timeout_ms)),
            ));
            assert(elems_payload(set.elems@) == single_elem_attrs(ip_octets(ip), timeout_ms));
            assert(set_fits(set));
        }

        self.nlmsg_batch.reset();
        self.nlmsg_batch.begin();
        // A create first, so the delete below cannot fail on a missing
        // element.
        self.nlmsg_batch.set_elems(
            NFT_MSG_NEWSETELEM,
            NFPROTO_INET,
            NLM_F_CREATE | NLM_F_REQUEST,
            &set,
        );
        // A delete, so the add installs a fresh timeout instead of being
        // rejected as a duplicate.
        self.nlmsg_batch.set_elems(
            NFT_MSG_DELSETELEM,
            NFPROTO_INET,
            NLM_F_CREATE | NLM_F_REQUEST,
            &set,
        );
        // The add that carries the new timeout; only it asks for an
        // acknowledgement.
        self.nlmsg_batch.set_elems(
            NFT_MSG_NEWSETELEM,
            NFPROTO_INET,
            NLM_F_CREATE | NLM_F_REQUEST | NLM_F_ACK,
            &set,
        );
        let seq = self.nlmsg_batch.seq();
        self.nlmsg_batch.end();

        let bytes = copy_bytes(self.nlmsg_batch.as_bytes());
        proof {
            assert(bytes@ =~= ban_batch_bytes(
                old(self).args().table@,
                set_name_for(old(self).args(), ip),
                ip,
                timeout_ms,
                old(self).batch_seq(),
            ));
        }
        if self.args.dry_run {
            self.commit_ban(ip, recidivism, now);
        }
        BanOutcome::Submitted(
            BanRequest { ip, recidivism, timeout_ms, bytes, expected_seq: seq.0 },
        )
    }

    /// One line of input at time `now`: count it, check its budget, and
    /// on denial parse and ban.  A line-rate report comes back when one
    /// is due.
    pub fn handle_line(&mut self, line: &Vec<u8>, now: u64) -> (r: LineResult)
        requires
            old(self).wf(),
        ensures
            final(self).wf(),
            final(self).args() == old(self).args(),
            limiter_stepped(*old(self), *final(self), line@, now),
            ({
                let c = if old(self).line_count() == u64::MAX {
                    0u64
                } else {
                    (old(self).line_count() + 1) as u64
                };
                let elapsed = if now >= old(self).line_count_start() {
                    (now - old(self).line_count_start()) as u64
                } else {
                    0u64
                };
                let due = c % 10 == 0 && elapsed > old(self).args().reporting_ip_time_period;
                &&& (r.report is Some) == due
                &&& (r.report matches Some(rep) ==> rep.lines == c && rep.since_ns == elapsed)
                &&& final(self).line_count() == (if due {
                    0u64
                } else {
                    c
                })
                &&& final(self).line_count_start() == (if due {
                    now
                } else {
                    old(self).line_count_start()
                })
            }),
            ({
                let deny = limiter_denies(*old(self), line@, now);
                match r.outcome {
                    LineOutcome::UnderLimit => !deny && ban_state_unchanged(
                        *old(self),
                        *final(self),
                    ),
                    LineOutcome::ParseFailed => deny && spec_parse_ip(line@) is None
                        && ban_state_unchanged(*old(self), *final(self)),
                    LineOutcome::AlreadyBanned => deny && (spec_parse_ip(line@) matches Some(ip)
                        && old(self).suppressed(ip, now)) && ban_state_unchanged(
                        *old(self),
                        *final(self),
                    ),
                    LineOutcome::Banned(req) => deny && (spec_parse_ip(line@) matches Some(ip)
                        && !old(self).suppressed(ip, now) && ban_submitted(
                        *old(self),
                        *final(self),
                        ip,
                        now,
                        req,
                    )),
                }
            }),
    {
        self.line_count = self.line_count.wrapping_add(1);

        let denied: bool = match &mut self.limiter {
            Some(l) => {
                let d = l.check_key(line, now);
                d == Decision::Denied
            },
            None => true,
        };

        let outcome: LineOutcome = if denied {
            match IpAddr::parse_ascii(line.as_slice()) {
                Ok(ip) => match self.ban(ip, now) {
                    BanOutcome::AlreadyBanned => LineOutcome::AlreadyBanned,
                    BanOutcome::Submitted(req) => LineOutcome::Banned(req),
                },
                Err(_) => LineOutcome::ParseFailed,
            }
        } else {
            LineOutcome::UnderLimit
        };

        let report: Option<LineReport> = if self.line_count % 10 == 0 && now.saturating_sub(
            self.line_count_start,
        ) > self.args.reporting_ip_time_period {
            let rep = LineReport {
                lines: self.line_count,
                since_ns: now.saturating_sub(self.line_count_start),
            };
            self.line_count = 0;
            self.line_count_start = now;
            Some(rep)
        } else {
            None
        };

        LineResult { outcome, report }
    }

    /// A ban-rate report when one is due: at least one ban counted and
    /// the reporting period passed.  Taking it resets the counter.
    pub fn take_ban_report(&mut self, now: u64) -> (r: Option<BanReport>)
        requires
            old(self).wf(),
        ensures
            final(self).wf(),
            final(self).args() == old(self).args(),
            final(self).limiter_ref() == old(self).limiter_ref(),
            final(self).suppression() == old(self).suppression(),
            final(self).recidivism() == old(self).recidivism(),
            final(self).batch_seq() == old(self).batch_seq(),
            final(self).batch_bytes() == old(self).batch_bytes(),
            final(self).line_count() == old(self).line_count(),
            final(self).line_count_start() == old(self).line_count_start(),
            ({
                let elapsed = if now >= old(self).ban_count_start() {
                    (now - old(self).ban_count_start()) as u64
                } else {
                    0u64
                };
                let due = old(self).ban_count() > 0 && elapsed > old(
                    self,
                ).args().reporting_ban_time_period;
                &&& (r is Some) == due
                &&& (r matches Some(rep) ==> rep.bans == old(self).ban_count() && rep.since_ns
                    == elapsed)
                &&& final(self).ban_count() == (if due {
                    0u64
                } else {
                    old(self).ban_count()
                })
                &&& final(self).ban_count_start() == (if due {
                    now
                } else {
                    old(self).ban_count_start()
                })
            }),
    {
        if self.ban_count > 0 && now.saturating_sub(self.ban_count_start)
            > self.args.reporting_ban_time_period {
            let rep = BanReport {
                bans: self.ban_count,
                since_ns: now.saturating_sub(self.ban_count_start),
            };
            self.ban_count = 0;
            self.ban_count_start = now;
            Some(rep)
        } else {
            None
        }
    }
}

} // verus!
