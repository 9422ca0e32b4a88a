//! Construction of the netlink batch that installs one element into a
//! kernel nftables set.
//!
//! Every message is hand-marshalled: a 16-byte netlink header, a 4-byte
//! netfilter header, then type-length-value attributes aligned to four
//! bytes.  The byte layout is fixed by spec functions and each builder
//! proves that it appended exactly those bytes.

use vstd::prelude::*;

use crate::bytes::{
    push_bytes, push_u16_be, push_u16_le, push_u32_le, push_u64_be, push_zeros, u16_be, u16_le,
    u32_le, u64_be, zeros,
};

verus! {

// Netlink message flags.
pub const NLM_F_REQUEST: u16 = 0x0001;
pub const NLM_F_ACK: u16 = 0x0004;
pub const NLM_F_CREATE: u16 = 0x0400;

// Netfilter-netlink subsystem and batch control message types.
pub const NFNL_SUBSYS_NFTABLES: u16 = 10;
pub const NFNL_MSG_BATCH_BEGIN: u16 = 0x10;
pub const NFNL_MSG_BATCH_END: u16 = 0x11;

// nftables message types (low byte of the netlink type).
pub const NFT_MSG_NEWSETELEM: u16 = 12;
pub const NFT_MSG_DELSETELEM: u16 = 14;

// Protocol families carried in the netfilter header.
pub const NFPROTO_UNSPEC: u16 = 0;
pub const NFPROTO_INET: u16 = 1;

// Attribute types.
pub const NLA_F_NESTED: u16 = 0x8000;
pub const NFTA_SET_ELEM_LIST_TABLE: u16 = 1;
pub const NFTA_SET_ELEM_LIST_SET: u16 = 2;
pub const NFTA_SET_ELEM_LIST_ELEMENTS: u16 = 3;
pub const NFTA_LIST_ELEM: u16 = 1;
pub const NFTA_SET_ELEM_KEY: u16 = 1;
pub const NFTA_SET_ELEM_TIMEOUT: u16 = 4;
pub const NFTA_DATA_VALUE: u16 = 1;

/// Bytes of padding that bring `n` up to a multiple of four.
pub open spec fn pad4(n: int) -> int {
    if n % 4 == 0 {
        0
    } else {
        4 - n % 4
    }
}

/// One netlink attribute: length (header included), type, payload, padding.
pub open spec fn nlattr(ty: u16, payload: Seq<u8>) -> Seq<u8> {
    u16_le((payload.len() + 4) as u16) + u16_le(ty) + payload + zeros(pad4(payload.len() as int))
}

/// A netlink message header: length, type, flags, sequence number, and a
/// zero port id (the kernel fills in the sender).
pub open spec fn nlmsghdr(len: u32, ty: u16, flags: u16, seq: u32) -> Seq<u8> {
    u32_le(len) + u16_le(ty) + u16_le(flags) + u32_le(seq) + u32_le(0)
}

/// The netfilter header: family, version 0, big-endian resource id.
pub open spec fn nfgenmsg(family: u8, res_id: u16) -> Seq<u8> {
    seq![family, 0u8] + u16_be(res_id)
}

/// A name attribute carries the name with a terminating zero byte.
pub open spec fn strz(s: Seq<u8>) -> Seq<u8> {
    s + seq![0u8]
}

pub fn push_nlattr(buf: &mut Vec<u8>, ty: u16, payload: &[u8])
    requires
        payload@.len() + 4 <= 0xFFFF,
    ensures
        final(buf)@ == old(buf)@ + nlattr(ty, payload@),
{
    let n: usize = payload.len();
    push_u16_le(buf, (n + 4) as u16);
    push_u16_le(buf, ty);
    push_bytes(buf, payload);
    let pad: usize = if n % 4 == 0 {
        0
    } else {
        4 - n % 4
    };
    push_zeros(buf, pad);
    proof {
        assert(buf@ =~= old(buf)@ + nlattr(ty, payload@));
    }
}

/// A name attribute: the name bytes, a terminating zero, then padding.
pub fn push_name_attr(buf: &mut Vec<u8>, ty: u16, name: &[u8])
    requires
        name@.len() + 5 <= 0xFFFF,
    ensures
        final(buf)@ == old(buf)@ + nlattr(ty, strz(name@)),
{
    let mut z: Vec<u8> = Vec::new();
    push_bytes(&mut z, name);
    z.push(0u8);
    proof {
        assert(z@ =~= strz(name@));
    }
    push_nlattr(buf, ty, z.as_slice());
}

/// One element to install: the raw key octets and an optional timeout in
/// milliseconds.
pub struct NftnlSetElem {
    pub key: Vec<u8>,
    pub timeout_ms: Option<u64>,
}

/// The payload of one element: the key as a nested data attribute, then
/// the timeout attribute when one is set.
pub open spec fn elem_payload(key: Seq<u8>, timeout_ms: Option<u64>) -> Seq<u8> {
    nlattr(NFTA_SET_ELEM_KEY | NLA_F_NESTED, nlattr(NFTA_DATA_VALUE, key)) + (match timeout_ms {
        Some(t) => nlattr(NFTA_SET_ELEM_TIMEOUT, u64_be(t)),
        None => Seq::<u8>::empty(),
    })
}

/// The concatenated list-element attributes for a sequence of elements.
pub open spec fn elems_payload(elems: Seq<NftnlSetElem>) -> Seq<u8>
    decreases elems.len(),
{
    if elems.len() == 0 {
        Seq::<u8>::empty()
    } else {
        elems_payload(elems.drop_last()) + nlattr(
            NFTA_LIST_ELEM | NLA_F_NESTED,
            elem_payload(elems.last().key@, elems.last().timeout_ms),
        )
    }
}

impl NftnlSetElem {
    pub fn new() -> (r: NftnlSetElem)
        ensures
            r.key@ == Seq::<u8>::empty(),
            r.timeout_ms is None,
    {
        NftnlSetElem { key: Vec::new(), timeout_ms: None }
    }

    /// Stores the raw network-order octets of the address as the key.
    pub fn set_key(&mut self, ip: &crate::ip_addr::IpAddr)
        ensures
            final(self).key@ == crate::ip_addr::ip_octets(*ip),
            final(self).timeout_ms == old(self).timeout_ms,
    {
        self.key = ip.octets();
    }

    pub fn set_timeout(&mut self, timeout_ms: u64)
        ensures
            final(self).timeout_ms == Some(timeout_ms),
            final(self).key == old(self).key,
    {
        self.timeout_ms = Some(timeout_ms);
    }

    fn build_payload(&self) -> (r: Vec<u8>)
        requires
            self.key@.len() + 12 <= 0xFFFF,
        ensures
            r@ == elem_payload(self.key@, self.timeout_ms),
    {
        let mut inner: Vec<u8> = Vec::new();
        push_nlattr(&mut inner, NFTA_DATA_VALUE, self.key.as_slice());
        let mut p: Vec<u8> = Vec::new();
        push_nlattr(&mut p, NFTA_SET_ELEM_KEY | NLA_F_NESTED, inner.as_slice());
        match &self.timeout_ms {
            Some(t) => {
                let mut tb: Vec<u8> = Vec::new();
                push_u64_be(&mut tb, *t);
                push_nlattr(&mut p, NFTA_SET_ELEM_TIMEOUT, tb.as_slice());
            },
            None => {},
        }
        proof {
            assert(p@ =~= elem_payload(self.key@, self.timeout_ms));
        }
        p
    }
}

impl Default for NftnlSetElem {
    fn default() -> (r: NftnlSetElem)
        ensures
            r.key@ == Seq::<u8>::empty(),
            r.timeout_ms is None,
    {
        NftnlSetElem::new()
    }
}

/// The set an element is destined for: the table and set names, and the
/// elements to carry in the next message.
pub struct NftnlSet {
    pub table: Vec<u8>,
    pub name: Vec<u8>,
    pub elems: Vec<NftnlSetElem>,
}

/// Every element key fits its attribute and the element list fits the
/// 16-bit attribute length, as the wire format forces.
pub open spec fn set_fits(s: NftnlSet) -> bool {
    &&& s.table@.len() + 5 <= 0xFFFF
    &&& s.name@.len() + 5 <= 0xFFFF
    &&& forall|i: int|
        0 <= i < s.elems@.len() ==> #[trigger] s.elems@[i].key@.len() + 12 <= 0xFFFF
    &&& elems_payload(s.elems@).len() + 4 <= 0xFFFF
}

impl NftnlSet {
    pub fn new() -> (r: NftnlSet)
        ensures
            r.table@ == Seq::<u8>::empty(),
            r.name@ == Seq::<u8>::empty(),
            r.elems@ == Seq::<NftnlSetElem>::empty(),
    {
        NftnlSet { table: Vec::new(), name: Vec::new(), elems: Vec::new() }
    }

    pub fn set_table(&mut self, table: &[u8])
        ensures
            final(self).table@ == table@,
            final(self).name == old(self).name,
            final(self).elems == old(self).elems,
    {
        let mut t: Vec<u8> = Vec::new();
        push_bytes(&mut t, table);
        self.table = t;
    }

    pub fn set_name(&mut self, name: &[u8])
        ensures
            final(self).name@ == name@,
            final(self).table == old(self).table,
            final(self).elems == old(self).elems,
    {
        let mut n: Vec<u8> = Vec::new();
        push_bytes(&mut n, name);
        self.name = n;
    }

    pub fn add(&mut self, elem: NftnlSetElem)
        ensures
            final(self).elems@ == old(self).elems@.push(elem),
            final(self).table == old(self).table,
            final(self).name == old(self).name,
    {
        self.elems.push(elem);
    }

    fn build_elems_payload(&self) -> (r: Vec<u8>)
        requires
            forall|i: int|
                0 <= i < self.elems@.len() ==> #[trigger] self.elems@[i].key@.len() + 12 <= 0xFFFF,
            elems_payload(self.elems@).len() + 4 <= 0xFFFF,
        ensures
            r@ == elems_payload(self.elems@),
    {
        let mut acc: Vec<u8> = Vec::new();
        let mut i: usize = 0;
        while i < self.elems.len()
            invariant
                i <= self.elems@.len(),
                acc@ == elems_payload(self.elems@.subrange(0, i as int)),
                forall|j: int|
                    0 <= j < self.elems@.len() ==> #[trigger] self.elems@[j].key@.len() + 12
                        <= 0xFFFF,
                elems_payload(self.elems@).len() + 4 <= 0xFFFF,
            decreases self.elems@.len() - i,
        {
            proof {
                lemma_elems_payload_prefix(self.elems@, i as int);
            }
            let ep = self.elems[i].build_payload();
            push_nlattr(&mut acc, NFTA_LIST_ELEM | NLA_F_NESTED, ep.as_slice());
            i = i + 1;
            proof {
                let pre = self.elems@.subrange(0, i - 1);
                let cur = self.elems@.subrange(0, i as int);
                assert(cur.drop_last() =~= pre);
                assert(cur.last() == self.elems@[i - 1]);
                assert(acc@ =~= elems_payload(cur));
            }
        }
        proof {
            assert(self.elems@.subrange(0, self.elems@.len() as int) =~= self.elems@);
        }
        acc
    }
}

impl Default for NftnlSet {
    fn default() -> (r: NftnlSet)
        ensures
            r.table@ == Seq::<u8>::empty(),
            r.name@ == Seq::<u8>::empty(),
            r.elems@ == Seq::<NftnlSetElem>::empty(),
    {
        NftnlSet::new()
    }
}

/// A batch-control message: header plus netfilter header carrying the
/// nftables subsystem as its resource id.
pub open spec fn batch_ctl_msg(ty: u16, seq: u32) -> Seq<u8> {
    nlmsghdr(20, ty, NLM_F_REQUEST, seq) + nfgenmsg(0, NFNL_SUBSYS_NFTABLES)
}

/// The body of a set-element message: netfilter header, table name, set
/// name, then the nested element list.
pub open spec fn set_elems_body(family: u8, table: Seq<u8>, name: Seq<u8>, elems: Seq<u8>) -> Seq<
    u8,
> {
    nfgenmsg(family, 0) + nlattr(NFTA_SET_ELEM_LIST_TABLE, strz(table)) + nlattr(
        NFTA_SET_ELEM_LIST_SET,
        strz(name),
    ) + nlattr(NFTA_SET_ELEM_LIST_ELEMENTS | NLA_F_NESTED, elems)
}

/// A whole set-element message.  The netlink type combines the nftables
/// subsystem with the message type; a request flag is always present.
pub open spec fn set_elems_msg(
    msg_type: u16,
    family: u16,
    flags: u16,
    seq: u32,
    table: Seq<u8>,
    name: Seq<u8>,
    elems: Seq<u8>,
) -> Seq<u8> {
    let body = set_elems_body(family as u8, table, name, elems);
    nlmsghdr(
        (16 + body.len()) as u32,
        (NFNL_SUBSYS_NFTABLES << 8) | msg_type,
        NLM_F_REQUEST | flags,
        seq,
    ) + body
}

/// A wrapping 32-bit sequence counter shared by all messages of a batch.
#[derive(Debug, Copy, Clone, PartialEq, Eq, Structural)]
pub struct SeqNum(pub u32);

/// The successor of a sequence number, wrapping at the top.
pub open spec fn seq_next(x: u32) -> u32 {
    if x == 0xFFFF_FFFFu32 {
        0u32
    } else {
        (x + 1) as u32
    }
}

impl SeqNum {
    #[must_use]
    pub fn inc(self) -> (r: Self)
        ensures
            r.0 == seq_next(self.0),
    {
        SeqNum(self.0.wrapping_add(1))
    }
}

/// An in-memory netlink batch: the bytes of the messages appended so far
/// and the sequence counter they were stamped with.
pub struct NlmsgBatch {
    buf: Vec<u8>,
    seq: SeqNum,
}

impl NlmsgBatch {
    pub closed spec fn bytes(&self) -> Seq<u8> {
        self.buf@
    }

    pub closed spec fn spec_seq(&self) -> SeqNum {
        self.seq
    }

    pub fn new(seq: SeqNum) -> (r: NlmsgBatch)
        ensures
            r.bytes() == Seq::<u8>::empty(),
            r.spec_seq() == seq,
    {
        NlmsgBatch { buf: Vec::new(), seq }
    }

    /// Drops the accumulated bytes; the sequence counter keeps running.
    pub fn reset(&mut self)
        ensures
            final(self).bytes() == Seq::<u8>::empty(),
            final(self).spec_seq() == old(self).spec_seq(),
    {
        self.buf.clear();
    }

    pub fn seq(&self) -> (r: SeqNum)
        ensures
            r == self.spec_seq(),
    {
        self.seq
    }

    pub fn as_bytes(&self) -> (r: &[u8])
        ensures
            r@ == self.bytes(),
    {
        self.buf.as_slice()
    }

    /// Opens a transactional batch.
    pub fn begin(&mut self)
        ensures
            final(self).spec_seq().0 == seq_next(old(self).spec_seq().0),
            final(self).bytes() == old(self).bytes() + batch_ctl_msg(
                NFNL_MSG_BATCH_BEGIN,
                final(self).spec_seq().0,
            ),
    {
        self.push_batch_ctl(NFNL_MSG_BATCH_BEGIN);
    }

    /// Closes a transactional batch.
    pub fn end(&mut self)
        ensures
            final(self).spec_seq().0 == seq_next(old(self).spec_seq().0),
            final(self).bytes() == old(self).bytes() + batch_ctl_msg(
                NFNL_MSG_BATCH_END,
                final(self).spec_seq().0,
            ),
    {
        self.push_batch_ctl(NFNL_MSG_BATCH_END);
    }

    fn push_batch_ctl(&mut self, ty: u16)
        ensures
            final(self).spec_seq().0 == seq_next(old(self).spec_seq().0),
            final(self).bytes() == old(self).bytes() + batch_ctl_msg(
                ty,
                final(self).spec_seq().0,
            ),
    {
        self.seq = self.seq.inc();
        push_u32_le(&mut self.buf, 20);
        push_u16_le(&mut self.buf, ty);
        push_u16_le(&mut self.buf, NLM_F_REQUEST);
        push_u32_le(&mut self.buf, self.seq.0);
        push_u32_le(&mut self.buf, 0);
        self.buf.push(0u8);
        self.buf.push(0u8);
        push_u16_be(&mut self.buf, NFNL_SUBSYS_NFTABLES);
        proof {
            assert(self.buf@ =~= old(self).buf@ + batch_ctl_msg(ty, self.seq.0));
        }
    }

    /// Appends one set-element message for every element of `set`.
    #[verifier::rlimit(50)]
    pub fn set_elems(&mut self, msg_type: u16, family: u16, flags: u16, set: &NftnlSet)
        requires
            msg_type <= 0xFF,
            family <= 0xFF,
            set_fits(*set),
        ensures
            final(self).spec_seq().0 == seq_next(old(self).spec_seq().0),
            final(self).bytes() == old(self).bytes() + set_elems_msg(
                msg_type,
                family,
                flags,
                final(self).spec_seq().0,
                set.table@,
                set.name@,
                elems_payload(set.elems@),
            ),
    {
        self.seq = self.seq.inc();
        let elems = set.build_elems_payload();

        // Sizes: 16-byte header, 4-byte netfilter header, then the three
        // attributes, each a 4-byte header plus padded payload.
        let table_sz: usize = attr_size(set.table.len() + 1);
        let name_sz: usize = attr_size(set.name.len() + 1);
        let elems_sz: usize = attr_size(elems.len());
        let total: usize = 20 + table_sz + name_sz + elems_sz;

        push_u32_le(&mut self.buf, total as u32);
        push_u16_le(&mut self.buf, (NFNL_SUBSYS_NFTABLES << 8) | msg_type);
        push_u16_le(&mut self.buf, NLM_F_REQUEST | flags);
        push_u32_le(&mut self.buf, self.seq.0);
        push_u32_le(&mut self.buf, 0);
        self.buf.push(family as u8);
        self.buf.push(0u8);
        push_u16_be(&mut self.buf, 0);
        push_name_attr(&mut self.buf, NFTA_SET_ELEM_LIST_TABLE, set.table.as_slice());
        push_name_attr(&mut self.buf, NFTA_SET_ELEM_LIST_SET, set.name.as_slice());
        push_nlattr(&mut self.buf, NFTA_SET_ELEM_LIST_ELEMENTS | NLA_F_NESTED, elems.as_slice());
        proof {
            let body = set_elems_body(family as u8, set.table@, set.name@, elems_payload(set.elems@));
            assert(total == 16 + body.len());
            assert(self.buf@ =~= old(self).buf@ + set_elems_msg(
                msg_type,
                family,
                flags,
                self.seq.0,
                set.table@,
                set.name@,
                elems_payload(set.elems@),
            ));
        }
    }
}

/// The padded size of one attribute with `n` payload bytes.
fn attr_size(n: usize) -> (r: usize)
    requires
        n + 4 <= 0xFFFF,
    ensures
        r == 4 + n + pad4(n as int),
{
    let pad: usize = if n % 4 == 0 {
        0
    } else {
        4 - n % 4
    };
    4 + n + pad
}

/// The element list grows monotonically: each prefix's payload is a prefix
/// of the whole, so every attribute also fits when the whole list fits.
proof fn lemma_elems_payload_prefix(elems: Seq<NftnlSetElem>, i: int)
    requires
        0 <= i < elems.len(),
        elems_payload(elems).len() + 4 <= 0xFFFF,
    ensures
        elem_payload(elems[i].key@, elems[i].timeout_ms).len() + 8 <= 0xFFFF,
    decreases elems.len(),
{
    if i == elems.len() - 1 {
        assert(elems.last() == elems[i]);
        assert(elems_payload(elems) == elems_payload(elems.drop_last()) + nlattr(
            NFTA_LIST_ELEM | NLA_F_NESTED,
            elem_payload(elems[i].key@, elems[i].timeout_ms),
        ));
    } else {
        lemma_elems_payload_prefix(elems.drop_last(), i);
    }
}

} // verus!
