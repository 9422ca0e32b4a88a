//! Parsing candidate lines into addresses.
//!
//! A line is the text of a v4 address (four decimal octets, no leading
//! zeros) or of a v6 address (colon-separated hexadecimal groups, at most
//! one `::` gap, an optional embedded v4 tail).  The grammar is fixed by
//! spec functions over the line split at its separators; the parser
//! returns exactly what the grammar assigns.

use vstd::prelude::*;

use crate::ip_addr::IpAddr;

verus! {

/// The pieces of `s` between occurrences of `sep`: always one part more
/// than there are separators, parts may be empty.
pub open spec fn split_on(s: Seq<u8>, sep: u8) -> Seq<Seq<u8>>
    decreases s.len(),
{
    if s.len() == 0 {
        seq![Seq::<u8>::empty()]
    } else {
        let rest = split_on(s.drop_last(), sep);
        if s.last() == sep {
            rest.push(Seq::<u8>::empty())
        } else {
            rest.update(rest.len() - 1, rest.last().push(s.last()))
        }
    }
}

proof fn lemma_split_nonempty(s: Seq<u8>, sep: u8)
    ensures
        split_on(s, sep).len() >= 1,
    decreases s.len(),
{
    if s.len() > 0 {
        lemma_split_nonempty(s.drop_last(), sep);
    }
}

/// Splits a byte string at every occurrence of `sep`.
pub fn split_bytes(s: &[u8], sep: u8) -> (parts: Vec<Vec<u8>>)
    ensures
        parts.deep_view() == split_on(s@, sep),
        parts@.len() >= 1,
{
    let mut done: Vec<Vec<u8>> = Vec::new();
    let mut cur: Vec<u8> = Vec::new();
    let mut i: usize = 0;
    proof {
        assert(s@.subrange(0, 0) =~= Seq::<u8>::empty());
        assert(done.deep_view().push(cur@) =~= split_on(s@.subrange(0, 0), sep));
    }
    while i < s.len()
        invariant
            i <= s@.len(),
            done.deep_view().push(cur@) == split_on(s@.subrange(0, i as int), sep),
        decreases s@.len() - i,
    {
        let ghost pre = s@.subrange(0, i as int);
        let ghost pre2 = s@.subrange(0, i + 1);
        let ghost done0 = done.deep_view();
        let ghost cur0 = cur@;
        proof {
            assert(pre2.drop_last() =~= pre);
            assert(pre2.last() == s@[i as int]);
            lemma_split_nonempty(pre, sep);
        }
        if s[i] == sep {
            done.push(cur);
            cur = Vec::new();
            proof {
                assert(done.deep_view() =~~= done0.push(cur0));
                assert(done.deep_view().push(cur@) =~~= split_on(pre, sep).push(
                    Seq::<u8>::empty(),
                ));
            }
        } else {
            cur.push(s[i]);
            proof {
                let sp = split_on(pre, sep);
                assert(sp == done0.push(cur0));
                assert(sp.last() == cur0);
                assert(sp.update(sp.len() - 1, sp.last().push(s@[i as int])) =~~= done0.push(
                    cur@,
                ));
                assert(done.deep_view() =~~= done0);
            }
        }
        i = i + 1;
    }
    proof {
        assert(s@.subrange(0, s@.len() as int) =~= s@);
    }
    let ghost done1 = done.deep_view();
    let ghost cur1 = cur@;
    done.push(cur);
    proof {
        assert(done.deep_view() =~~= done1.push(cur1));
        lemma_split_nonempty(s@, sep);
    }
    done
}

/// A decimal digit.
pub open spec fn is_digit(c: u8) -> bool {
    0x30 <= c <= 0x39
}

/// The number the decimal digits of `s` write.
pub open spec fn dec_val(s: Seq<u8>) -> int
    decreases s.len(),
{
    if s.len() == 0 {
        0
    } else {
        dec_val(s.drop_last()) * 10 + (s.last() - 0x30)
    }
}

/// The text of one v4 octet: one to three decimal digits, no leading
/// zero, value at most 255.
pub open spec fn is_octet_text(s: Seq<u8>) -> bool {
    &&& 1 <= s.len() <= 3
    &&& forall|i: int| 0 <= i < s.len() ==> is_digit(#[trigger] s[i])
    &&& (s.len() > 1 ==> s[0] != 0x30)
    &&& dec_val(s) <= 255
}

/// What the v4 grammar assigns to `s`: four octet texts separated by
/// dots, read as the 32-bit address value.
pub open spec fn spec_parse_ipv4(s: Seq<u8>) -> Option<u32> {
    let parts = split_on(s, 0x2e);
    if parts.len() == 4 && is_octet_text(parts[0]) && is_octet_text(parts[1]) && is_octet_text(
        parts[2],
    ) && is_octet_text(parts[3]) {
        Some(
            ((dec_val(parts[0]) as u32) << 24) | ((dec_val(parts[1]) as u32) << 16) | ((dec_val(
                parts[2],
            ) as u32) << 8) | (dec_val(parts[3]) as u32),
        )
    } else {
        None
    }
}

/// Reads one v4 octet.
fn parse_octet(part: &Vec<u8>) -> (r: Option<u8>)
    ensures
        r is Some ==> is_octet_text(part@) && r->0 as int == dec_val(part@),
        r is None ==> !is_octet_text(part@),
{
    let n = part.len();
    if n < 1 || n > 3 {
        return None;
    }
    if n > 1 && part[0] == 0x30 {
        return None;
    }
    let mut val: u16 = 0;
    let mut i: usize = 0;
    proof {
        assert(part@.subrange(0, 0) =~= Seq::<u8>::empty());
    }
    while i < n
        invariant
            i <= n,
            n == part@.len(),
            1 <= n <= 3,
            val as int == dec_val(part@.subrange(0, i as int)),
            (val as int) < (if i == 0 {
                1int
            } else if i == 1 {
                10
            } else if i == 2 {
                100
            } else {
                1000
            }),
            forall|j: int| 0 <= j < i ==> is_digit(#[trigger] part@[j]),
        decreases n - i,
    {
        let c = part[i];
        if c < 0x30 || c > 0x39 {
            return None;
        }
        proof {
            assert(part@.subrange(0, i + 1).drop_last() =~= part@.subrange(0, i as int));
        }
        val = val * 10 + ((c - 0x30) as u16);
        i = i + 1;
    }
    proof {
        assert(part@.subrange(0, n as int) =~= part@);
    }
    if val > 255 {
        return None;
    }
    Some(val as u8)
}

/// A hexadecimal digit, either case.
pub open spec fn is_hex_digit(c: u8) -> bool {
    (0x30 <= c <= 0x39) || (0x61 <= c <= 0x66) || (0x41 <= c <= 0x46)
}

/// The value of one hexadecimal digit.
pub open spec fn hex_digit_val(c: u8) -> u16 {
    if 0x30 <= c <= 0x39 {
        (c - 0x30) as u16
    } else if 0x61 <= c <= 0x66 {
        (c - 0x61 + 10) as u16
    } else if 0x41 <= c <= 0x46 {
        (c - 0x41 + 10) as u16
    } else {
        0
    }
}

/// The number the hexadecimal digits of `s` write.
pub open spec fn hex_seq_val(s: Seq<u8>) -> u16
    decreases s.len(),
{
    if s.len() == 0 {
        0
    } else {
        (hex_seq_val(s.drop_last()) << 4) | hex_digit_val(s.last())
    }
}

/// The text of one v6 group: one to four hexadecimal digits.
pub open spec fn is_h16_text(s: Seq<u8>) -> bool {
    &&& 1 <= s.len() <= 4
    &&& forall|i: int| 0 <= i < s.len() ==> is_hex_digit(#[trigger] s[i])
}

/// Every part is a v6 group text.
pub open spec fn all_h16(parts: Seq<Seq<u8>>) -> bool {
    forall|i: int| 0 <= i < parts.len() ==> is_h16_text(#[trigger] parts[i])
}

/// The group values of a run of group texts.
pub open spec fn h16_vals(parts: Seq<Seq<u8>>) -> Seq<u16> {
    Seq::new(parts.len(), |i: int| hex_seq_val(parts[i]))
}

/// The group values of the parts after a gap: all group texts, except
/// that the final part may be an embedded v4 address, which contributes
/// its two high and low halves.
pub open spec fn tail_groups(parts: Seq<Seq<u8>>) -> Option<Seq<u16>> {
    if parts.len() == 0 {
        Some(Seq::<u16>::empty())
    } else {
        match spec_parse_ipv4(parts.last()) {
            Some(v) => if all_h16(parts.drop_last()) {
                Some(
                    h16_vals(parts.drop_last()).push(((v >> 16) & 0xFFFF) as u16).push(
                        (v & 0xFFFF) as u16,
                    ),
                )
            } else {
                None
            },
            None => if all_h16(parts) {
                Some(h16_vals(parts))
            } else {
                None
            },
        }
    }
}

/// The 128-bit value eight groups write, first group most significant.
pub open spec fn groups_val(g: Seq<u16>) -> u128
    decreases g.len(),
{
    if g.len() == 0 {
        0
    } else {
        (groups_val(g.drop_last()) << 16) | (g.last() as u128)
    }
}

/// `n` zero groups.
pub open spec fn zero_groups(n: int) -> Seq<u16> {
    Seq::new(n as nat, |i: int| 0u16)
}

/// The address the groups around a `::` gap write: the gap stands for
/// the zero groups that bring the total to eight.
pub open spec fn assemble(left: Seq<u16>, right: Seq<u16>) -> u128 {
    groups_val(left + zero_groups(8 - left.len() - right.len()) + right)
}

/// A single empty part strictly inside the list: the picture a lone
/// interior `::` leaves after splitting on `:`.
pub open spec fn mid_gap(parts: Seq<Seq<u8>>, k: int) -> bool {
    &&& 1 <= k <= parts.len() - 2
    &&& parts[k].len() == 0
    &&& forall|i: int| 0 <= i < parts.len() && i != k ==> #[trigger] parts[i].len() != 0
}

/// What the v6 grammar assigns to `s`, by the shape of `s` split at its
/// colons: no gap and exactly eight groups; a leading, trailing, or
/// interior `::` standing for at least one zero group; or `::` alone.
pub open spec fn spec_parse_ipv6(s: Seq<u8>) -> Option<u128> {
    let parts = split_on(s, 0x3a);
    let n = parts.len() as int;
    if forall|i: int| 0 <= i < n ==> #[trigger] parts[i].len() != 0 {
        match tail_groups(parts) {
            Some(g) => if g.len() == 8 {
                Some(groups_val(g))
            } else {
                None
            },
            None => None,
        }
    } else if n == 3 && parts[0].len() == 0 && parts[1].len() == 0 && parts[2].len() == 0 {
        Some(0)
    } else if n >= 3 && parts[0].len() == 0 && parts[1].len() == 0 && (forall|i: int|
        2 <= i < n ==> #[trigger] parts[i].len() != 0) {
        match tail_groups(parts.skip(2)) {
            Some(g) => if g.len() <= 7 {
                Some(assemble(Seq::<u16>::empty(), g))
            } else {
                None
            },
            None => None,
        }
    } else if n >= 3 && parts[n - 1].len() == 0 && parts[n - 2].len() == 0 && (forall|i: int|
        0 <= i < n - 2 ==> #[trigger] parts[i].len() != 0) {
        if all_h16(parts.subrange(0, n - 2)) && n - 2 <= 7 {
            Some(assemble(h16_vals(parts.subrange(0, n - 2)), Seq::<u16>::empty()))
        } else {
            None
        }
    } else if exists|k: int| mid_gap(parts, k) {
        let k = choose|k: int| mid_gap(parts, k);
        let left = parts.subrange(0, k);
        let right = parts.skip(k + 1);
        if all_h16(left) {
            match tail_groups(right) {
                Some(g) => if k + g.len() <= 7 {
                    Some(assemble(h16_vals(left), g))
                } else {
                    None
                },
                None => None,
            }
        } else {
            None
        }
    } else {
        None
    }
}

/// Reads one v6 group.
fn parse_h16(part: &Vec<u8>) -> (r: Option<u16>)
    ensures
        r is Some ==> is_h16_text(part@) && r->0 == hex_seq_val(part@),
        r is None ==> !is_h16_text(part@),
{
    let n = part.len();
    if n < 1 || n > 4 {
        return None;
    }
    let mut val: u16 = 0;
    let mut i: usize = 0;
    proof {
        assert(part@.subrange(0, 0) =~= Seq::<u8>::empty());
    }
    while i < n
        invariant
            i <= n,
            n == part@.len(),
            val == hex_seq_val(part@.subrange(0, i as int)),
            forall|j: int| 0 <= j < i ==> is_hex_digit(#[trigger] part@[j]),
        decreases n - i,
    {
        let c = part[i];
        let d: u16 = if 0x30 <= c && c <= 0x39 {
            (c - 0x30) as u16
        } else if 0x61 <= c && c <= 0x66 {
            (c - 0x61 + 10) as u16
        } else if 0x41 <= c && c <= 0x46 {
            (c - 0x41 + 10) as u16
        } else {
            return None;
        };
        proof {
            assert(part@.subrange(0, i + 1).drop_last() =~= part@.subrange(0, i as int));
        }
        val = (val << 4) | d;
        i = i + 1;
    }
    proof {
        assert(part@.subrange(0, n as int) =~= part@);
    }
    Some(val)
}

/// Whether every part in `[from, to)` is nonempty.
fn all_nonempty_range(parts: &Vec<Vec<u8>>, from: usize, to: usize) -> (r: bool)
    requires
        from <= to <= parts@.len(),
    ensures
        r == forall|i: int| from <= i < to ==> #[trigger] parts.deep_view()[i].len() != 0,
{
    let mut i: usize = from;
    while i < to
        invariant
            from <= i <= to <= parts@.len(),
            forall|j: int| from <= j < i ==> #[trigger] parts.deep_view()[j].len() != 0,
        decreases to - i,
    {
        if parts[i].len() == 0 {
            proof {
                assert(parts.deep_view()[i as int].len() == 0);
            }
            return false;
        }
        proof {
            assert(parts.deep_view()[i as int].len() != 0);
        }
        i = i + 1;
    }
    true
}

/// The index of the first empty part, if any part is empty.
fn first_empty(parts: &Vec<Vec<u8>>) -> (r: Option<usize>)
    ensures
        match r {
            Some(k) => k < parts@.len() && parts.deep_view()[k as int].len() == 0 && forall|j: int|
                0 <= j < k ==> #[trigger] parts.deep_view()[j].len() != 0,
            None => forall|j: int|
                0 <= j < parts@.len() ==> #[trigger] parts.deep_view()[j].len() != 0,
        },
{
    let mut k: usize = 0;
    while k < parts.len()
        invariant
            k <= parts@.len(),
            forall|j: int| 0 <= j < k ==> #[trigger] parts.deep_view()[j].len() != 0,
        decreases parts@.len() - k,
    {
        if parts[k].len() == 0 {
            proof {
                assert(parts.deep_view()[k as int] =~= parts@[k as int]@);
            }
            return Some(k);
        }
        proof {
            assert(parts.deep_view()[k as int] =~= parts@[k as int]@);
        }
        k = k + 1;
    }
    None
}

/// Reads the groups of `parts[from..]` as a gap tail.
fn parse_tail_groups(parts: &Vec<Vec<u8>>, from: usize) -> (r: Option<Vec<u16>>)
    requires
        from <= parts@.len(),
    ensures
        match r {
            Some(g) => tail_groups(parts.deep_view().skip(from as int)) == Some(g@),
            None => tail_groups(parts.deep_view().skip(from as int)) is None,
        },
{
    let ghost sub = parts.deep_view().skip(from as int);
    proof {
        assert forall|t: int| 0 <= t < parts@.len() implies parts.deep_view()[t] == parts@[t]@ by {
            assert(parts.deep_view()[t] =~= parts@[t]@);
        }
    }
    let n = parts.len();
    let mut g: Vec<u16> = Vec::new();
    if from == n {
        proof {
            assert(sub.len() == 0);
            assert(g@ =~= Seq::<u16>::empty());
        }
        return Some(g);
    }
    let mut i: usize = from;
    while i < n - 1
        invariant
            from <= i <= n - 1,
            n == parts@.len(),
            from < n,
            sub == parts.deep_view().skip(from as int),
            forall|t: int| 0 <= t < parts@.len() ==> #[trigger] parts.deep_view()[t] == parts@[t]@,
            g@ == h16_vals(sub.subrange(0, i - from)),
            forall|j: int| 0 <= j < i - from ==> is_h16_text(#[trigger] sub[j]),
        decreases n - i,
    {
        proof {
            assert(sub[i - from] == parts.deep_view()[i as int]);
        }
        match parse_h16(&parts[i]) {
            Some(v) => {
                g.push(v);
                proof {
                    assert(g@ =~= h16_vals(sub.subrange(0, i + 1 - from)));
                }
            },
            None => {
                proof {
                    assert(!is_h16_text(sub[i - from]));
                    assert(sub.drop_last()[i - from] == sub[i - from]);
                    assert(!all_h16(sub.drop_last()));
                    assert(!all_h16(sub));
                }
                return None;
            },
        }
        i = i + 1;
    }
    proof {
        assert(sub.last() == parts.deep_view()[n - 1]);
        assert(sub.drop_last() =~= sub.subrange(0, (n - 1 - from) as int));
    }
    match parse_ipv4(parts[n - 1].as_slice()) {
        Some(v) => {
            g.push((((v >> 16) & 0xFFFF) as u16));
            g.push(((v & 0xFFFF) as u16));
            Some(g)
        },
        None => {
            match parse_h16(&parts[n - 1]) {
                Some(v) => {
                    g.push(v);
                    proof {
                        assert(g@ =~= h16_vals(sub));
                    }
                    Some(g)
                },
                None => {
                    proof {
                        assert(!all_h16(sub));
                    }
                    None
                },
            }
        },
    }
}

/// The 128-bit value of exactly eight groups.
fn groups_value(g: &Vec<u16>) -> (r: u128)
    requires
        g@.len() == 8,
    ensures
        r == groups_val(g@),
{
    let mut val: u128 = 0;
    let mut i: usize = 0;
    proof {
        assert(g@.subrange(0, 0) =~= Seq::<u16>::empty());
    }
    while i < 8
        invariant
            i <= 8,
            g@.len() == 8,
            val == groups_val(g@.subrange(0, i as int)),
        decreases 8 - i,
    {
        proof {
            assert(g@.subrange(0, i + 1).drop_last() =~= g@.subrange(0, i as int));
        }
        val = (val << 16) | (g[i] as u128);
        i = i + 1;
    }
    proof {
        assert(g@.subrange(0, 8) =~= g@);
    }
    val
}

/// Builds the eight groups around the gap and reads their value.
fn assemble_value(left: &Vec<u16>, right: &Vec<u16>) -> (r: u128)
    requires
        left@.len() + right@.len() <= 8,
    ensures
        r == assemble(left@, right@),
{
    let mut full: Vec<u16> = Vec::new();
    let mut i: usize = 0;
    while i < left.len()
        invariant
            i <= left@.len(),
            full@ == left@.subrange(0, i as int),
        decreases left@.len() - i,
    {
        full.push(left[i]);
        proof {
            assert(full@ =~= left@.subrange(0, i + 1));
        }
        i = i + 1;
    }
    let zeros_needed: usize = 8 - left.len() - right.len();
    let mut z: usize = 0;
    while z < zeros_needed
        invariant
            z <= zeros_needed,
            zeros_needed == 8 - left@.len() - right@.len(),
            full@ == left@.subrange(0, left@.len() as int) + zero_groups(z as int),
        decreases zeros_needed - z,
    {
        full.push(0u16);
        proof {
            assert(full@ =~= left@.subrange(0, left@.len() as int) + zero_groups(z + 1));
        }
        z = z + 1;
    }
    let mut j: usize = 0;
    while j < right.len()
        invariant
            j <= right@.len(),
            zeros_needed == 8 - left@.len() - right@.len(),
            full@ == left@.subrange(0, left@.len() as int) + zero_groups(zeros_needed as int)
                + right@.subrange(0, j as int),
        decreases right@.len() - j,
    {
        full.push(right[j]);
        proof {
            assert(full@ =~= left@.subrange(0, left@.len() as int) + zero_groups(
                zeros_needed as int,
            ) + right@.subrange(0, j + 1));
        }
        j = j + 1;
    }
    proof {
        assert(left@.subrange(0, left@.len() as int) =~= left@);
        assert(right@.subrange(0, right@.len() as int) =~= right@);
        assert(full@ =~= left@ + zero_groups(8 - left@.len() - right@.len()) + right@);
    }
    groups_value(&full)
}

/// Reads the text of a v6 address.
#[verifier::loop_isolation(false)]
pub fn parse_ipv6(line: &[u8]) -> (r: Option<u128>)
    ensures
        r == spec_parse_ipv6(line@),
{
    let parts = split_bytes(line, 0x3a);
    let ghost ps = parts.deep_view();
    let n = parts.len();
    proof {
        assert(ps.len() == n);
        assert forall|t: int| 0 <= t < parts@.len() implies ps[t] == parts@[t]@ by {
            assert(ps[t] =~= parts@[t]@);
        }
    }
    if all_nonempty_range(&parts, 0, n) {
        match parse_tail_groups(&parts, 0) {
            Some(g) => {
                proof {
                    assert(ps.skip(0) =~= ps);
                }
                if g.len() == 8 {
                    Some(groups_value(&g))
                } else {
                    None
                }
            },
            None => {
                proof {
                    assert(ps.skip(0) =~= ps);
                }
                None
            },
        }
    } else if n == 3 && parts[0].len() == 0 && parts[1].len() == 0 && parts[2].len() == 0 {
        Some(0)
    } else if n >= 3 && parts[0].len() == 0 && parts[1].len() == 0 && all_nonempty_range(
        &parts,
        2,
        n,
    ) {
        match parse_tail_groups(&parts, 2) {
            Some(g) => {
                if g.len() <= 7 {
                    let left: Vec<u16> = Vec::new();
                    Some(assemble_value(&left, &g))
                } else {
                    None
                }
            },
            None => None,
        }
    } else if n >= 3 && parts[n - 1].len() == 0 && parts[n - 2].len() == 0 && all_nonempty_range(
        &parts,
        0,
        n - 2,
    ) {
        // Only plain groups may stand before a trailing gap.
        let mut left: Vec<u16> = Vec::new();
        let mut i: usize = 0;
        while i < n - 2
            invariant
                i <= n - 2,
                3 <= n == parts@.len(),
                ps == parts.deep_view(),
                forall|t: int| 0 <= t < parts@.len() ==> #[trigger] ps[t] == parts@[t]@,
                left@ == h16_vals(ps.subrange(0, i as int)),
                forall|j: int| 0 <= j < i ==> is_h16_text(#[trigger] ps[j]),
            decreases n - 2 - i,
        {
            match parse_h16(&parts[i]) {
                Some(v) => {
                    left.push(v);
                    proof {
                        assert(left@ =~= h16_vals(ps.subrange(0, i + 1)));
                    }
                },
                None => {
                    proof {
                        assert(ps.subrange(0, n - 2)[i as int] == ps[i as int]);
                        assert(!all_h16(ps.subrange(0, n - 2)));
                    }
                    return None;
                },
            }
            i = i + 1;
        }
        proof {
            assert(h16_vals(ps.subrange(0, n - 2)) =~= left@);
            assert(all_h16(ps.subrange(0, n - 2)));
        }
        if n - 2 <= 7 {
            let right: Vec<u16> = Vec::new();
            Some(assemble_value(&left, &right))
        } else {
            None
        }
    } else {
        // Look for a single interior gap.
        let k: usize = match first_empty(&parts) {
            Some(k) => k,
            None => {
                // No empty part at all: contradicts the failed first guard.
                proof {
                    assert(false);
                }
                return None;
            },
        };
        if 1 <= k && k <= n - 2 && all_nonempty_range(&parts, k + 1, n) {
            proof {
                assert(mid_gap(ps, k as int));
                let kc = choose|kk: int| mid_gap(ps, kk);
                assert(ps[kc].len() == 0);
                assert(kc == k as int);
            }
            let mut left: Vec<u16> = Vec::new();
            let mut i: usize = 0;
            while i < k
                invariant
                    i <= k,
                    k <= n - 2,
                    n == parts@.len(),
                    ps == parts.deep_view(),
                    forall|t: int| 0 <= t < parts@.len() ==> #[trigger] ps[t] == parts@[t]@,
                    left@ == h16_vals(ps.subrange(0, i as int)),
                    forall|j: int| 0 <= j < i ==> is_h16_text(#[trigger] ps[j]),
                decreases k - i,
            {
                match parse_h16(&parts[i]) {
                    Some(v) => {
                        left.push(v);
                        proof {
                            assert(left@ =~= h16_vals(ps.subrange(0, i + 1)));
                        }
                    },
                    None => {
                        proof {
                            assert(ps.subrange(0, k as int)[i as int] == ps[i as int]);
                            assert(!all_h16(ps.subrange(0, k as int)));
                        }
                        return None;
                    },
                }
                i = i + 1;
            }
            proof {
                assert(h16_vals(ps.subrange(0, k as int)) =~= left@);
                assert(all_h16(ps.subrange(0, k as int)));
            }
            match parse_tail_groups(&parts, k + 1) {
                Some(g) => {
                    if k + g.len() <= 7 {
                        Some(assemble_value(&left, &g))
                    } else {
                        None
                    }
                },
                None => None,
            }
        } else {
            // The first empty part does not form a lone interior gap, so
            // no index can: any gap index must equal `k`.
            proof {
                assert forall|kk: int| !mid_gap(ps, kk) by {
                    if mid_gap(ps, kk) {
                        assert(kk == k as int);
                    }
                }
            }
            None
        }
    }
}

/// Reads the text of a v4 address.
pub fn parse_ipv4(line: &[u8]) -> (r: Option<u32>)
    ensures
        r == spec_parse_ipv4(line@),
{
    let parts = split_bytes(line, 0x2e);
    if parts.len() != 4 {
        return None;
    }
    let a = parse_octet(&parts[0]);
    let b = parse_octet(&parts[1]);
    let c = parse_octet(&parts[2]);
    let d = parse_octet(&parts[3]);
    proof {
        assert(parts.deep_view()[0] == parts@[0]@);
        assert(parts.deep_view()[1] == parts@[1]@);
        assert(parts.deep_view()[2] == parts@[2]@);
        assert(parts.deep_view()[3] == parts@[3]@);
    }
    match (a, b, c, d) {
        (Some(a), Some(b), Some(c), Some(d)) => Some(
            ((a as u32) << 24) | ((b as u32) << 16) | ((c as u32) << 8) | (d as u32),
        ),
        _ => None,
    }
}

/// A line that is neither a v4 nor a v6 address text.
#[derive(Debug, Copy, Clone, PartialEq, Eq, Structural)]
pub struct IpParseError;

/// What the grammar assigns to a candidate line: a v4 reading wins, a v6
/// reading is tried second, anything else is rejected.
pub open spec fn spec_parse_ip(s: Seq<u8>) -> Option<IpAddr> {
    match spec_parse_ipv4(s) {
        Some(v) => Some(IpAddr::V4(v)),
        None => match spec_parse_ipv6(s) {
            Some(v) => Some(IpAddr::V6(v)),
            None => None,
        },
    }
}

impl IpAddr {
    /// Reads a candidate line as an address, exactly as the grammar does.
    pub fn parse_ascii(line: &[u8]) -> (r: Result<IpAddr, IpParseError>)
        ensures
            match r {
                Ok(ip) => spec_parse_ip(line@) == Some(ip),
                Err(_) => spec_parse_ip(line@) is None,
            },
    {
        match parse_ipv4(line) {
            Some(v) => Ok(IpAddr::V4(v)),
            None => match parse_ipv6(line) {
                Some(v) => Ok(IpAddr::V6(v)),
                None => Err(IpParseError),
            },
        }
    }
}

} // verus!
