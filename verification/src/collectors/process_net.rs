//! Per-process network traffic: which sockets a process holds, the byte
//! counters the kernel's socket diagnostics replies report for each socket,
//! their sums per process, and how they moved since the last sample.
use vstd::prelude::*;
use std::collections::HashMap;
use crate::collectors::containers::capped;
use crate::text::{chars_of, parse_u64, parse_unsigned, slice_chars, starts_with, starts_with_chars};

verus! {

broadcast use vstd::std_specs::hash::group_hash_axioms;

/// Bytes a process has received and sent over its TCP sockets.
#[derive(Clone, Copy, Debug, Default, PartialEq, Eq, Structural)]
pub struct ProcessNetSnapshot {
    pub rx_bytes: u64,
    pub tx_bytes: u64,
}

/// How a process's counters moved: its current totals and, when an earlier
/// sample of the process exists, the increase of each counter since then
/// (0 where a counter went down).
#[derive(Clone, Copy, Debug)]
pub struct ProcessNetChange {
    pub pid: u32,
    pub rx_total: u64,
    pub tx_total: u64,
    pub increase: Option<(u64, u64)>,
}

/// The previous sample of every process, and when it was taken.
pub struct ProcessNetCollector {
    pub prev: HashMap<u32, ProcessNetSnapshot>,
    pub prev_time: std::time::Instant,
}

/// The samples of `s`, keyed by process id; a later entry for the same
/// process replaces an earlier one.
pub open spec fn sample_map(s: Seq<(u32, ProcessNetSnapshot)>) -> Map<u32, ProcessNetSnapshot>
    decreases s.len(),
{
    if s.len() == 0 {
        Map::empty()
    } else {
        let (pid, snap) = s.last();
        sample_map(s.drop_last()).insert(pid, snap)
    }
}

pub open spec fn sat_sub(a: u64, b: u64) -> u64 {
    if a >= b { (a - b) as u64 } else { 0 }
}

/// The change reported for a process sampled at `snap`, given the samples
/// of the previous round.
pub open spec fn change_of(prev: Map<u32, ProcessNetSnapshot>, pid: u32, snap: ProcessNetSnapshot) -> ProcessNetChange {
    ProcessNetChange {
        pid,
        rx_total: snap.rx_bytes,
        tx_total: snap.tx_bytes,
        increase: if prev.contains_key(pid) {
            Some((sat_sub(snap.rx_bytes, prev[pid].rx_bytes), sat_sub(snap.tx_bytes, prev[pid].tx_bytes)))
        } else {
            None
        },
    }
}

/// `Instant::now`.
#[verifier::external_body]
pub(crate) fn instant_now() -> std::time::Instant {
    std::time::Instant::now()
}

impl ProcessNetCollector {
    /// A collector with no earlier samples, timed from now.
    pub fn new() -> (c: Self)
        ensures
            c.prev@ == Map::<u32, ProcessNetSnapshot>::empty(),
    {
        ProcessNetCollector { prev: HashMap::new(), prev_time: instant_now() }
    }

    /// Records this round's samples, taken at `now`: returns, in the order
    /// of `current`, each process's totals and increases against the
    /// previous round, together with the time of the previous round; the
    /// samples of this round replace those of the previous one.
    pub fn record(&mut self, current: &Vec<(u32, ProcessNetSnapshot)>, now: std::time::Instant) -> (r: (
        Vec<ProcessNetChange>,
        std::time::Instant,
    ))
        ensures
            r.0@.len() == current@.len(),
            forall|i: int|
                0 <= i < current@.len() ==> #[trigger] r.0@[i] == change_of(
                    old(self).prev@,
                    current@[i].0,
                    current@[i].1,
                ),
            r.1 == old(self).prev_time,
            final(self).prev@ == sample_map(current@),
            final(self).prev_time == now,
    {
        let mut out: Vec<ProcessNetChange> = Vec::new();
        let mut next: HashMap<u32, ProcessNetSnapshot> = HashMap::new();
        let mut i: usize = 0;
        while i < current.len()
            invariant
                i <= current@.len(),
                out@.len() == i,
                forall|j: int|
                    0 <= j < i ==> #[trigger] out@[j] == change_of(self.prev@, current@[j].0, current@[j].1),
                next@ == sample_map(current@.take(i as int)),
            decreases current.len() - i,
        {
            let (pid, snap) = current[i];
            let increase = match self.prev.get(&pid) {
                Some(p) => Some((snap.rx_bytes.saturating_sub(p.rx_bytes), snap.tx_bytes.saturating_sub(p.tx_bytes))),
                None => None,
            };
            out.push(ProcessNetChange { pid, rx_total: snap.rx_bytes, tx_total: snap.tx_bytes, increase });
            next.insert(pid, snap);
            proof {
                assert(current@.take(i as int + 1).drop_last() =~= current@.take(i as int));
            }
            i += 1;
        }
        assert(current@.take(current@.len() as int) =~= current@);
        let before = self.prev_time;
        self.prev_time = now;
        self.prev = next;
        (out, before)
    }
}

/// The inode of a socket link target `socket:[N]`.
pub open spec fn socket_inode_of(link: Seq<char>) -> Option<nat> {
    if link.len() >= 9 && starts_with(link, "socket:["@) && link.last() == ']' {
        parse_unsigned(link.subrange(8, link.len() - 1), u64::MAX as nat)
    } else {
        None
    }
}

/// Reads the socket inode from a file descriptor's link target, when the
/// descriptor is a socket.
pub fn socket_inode(link: &str) -> (r: Option<u64>)
    ensures
        r matches Some(v) ==> socket_inode_of(link@) == Some(v as nat),
        r is None ==> socket_inode_of(link@) is None,
{
    let cs = chars_of(link);
    let prefix = chars_of("socket:[");
    proof {
        reveal_strlit("socket:[");
    }
    if cs.len() >= 9 && starts_with_chars(cs.as_slice(), prefix.as_slice()) && cs[cs.len() - 1] == ']' {
        let inner = slice_chars(cs.as_slice(), 8, cs.len() - 1);
        parse_u64(inner.as_slice())
    } else {
        None
    }
}

/// The byte order of the integers in kernel messages: the machine's own.
#[derive(Clone, Copy, Debug, PartialEq, Eq, Structural)]
pub enum ByteOrder {
    Little,
    Big,
}

/// The unsigned integer whose least significant byte comes first.
pub open spec fn le_value(b: Seq<u8>) -> nat
    decreases b.len(),
{
    if b.len() == 0 {
        0
    } else {
        b[0] as nat + 256 * le_value(b.drop_first())
    }
}

/// The unsigned integer whose most significant byte comes first.
pub open spec fn be_value(b: Seq<u8>) -> nat
    decreases b.len(),
{
    if b.len() == 0 {
        0
    } else {
        be_value(b.drop_last()) * 256 + b.last() as nat
    }
}

pub open spec fn uint_value(b: Seq<u8>, o: ByteOrder) -> nat {
    match o {
        ByteOrder::Little => le_value(b),
        ByteOrder::Big => be_value(b),
    }
}

/// The unsigned integer held in the `n` bytes at `pos` of `buf`.
pub open spec fn uint_at(buf: Seq<u8>, pos: int, n: int, o: ByteOrder) -> nat {
    uint_value(buf.subrange(pos, pos + n), o)
}

pub open spec fn pow256(n: nat) -> nat
    decreases n,
{
    if n == 0 {
        1
    } else {
        256 * pow256((n - 1) as nat)
    }
}

proof fn lemma_pow256_grows(a: nat, b: nat)
    requires
        a <= b,
    ensures
        1 <= pow256(a) <= pow256(b),
    decreases b,
{
    if b > a {
        lemma_pow256_grows(a, (b - 1) as nat);
    } else if a > 0 {
        lemma_pow256_grows((a - 1) as nat, (a - 1) as nat);
    }
}

proof fn lemma_pow256_8()
    ensures
        pow256(8) == 0x1_0000_0000_0000_0000,
{
    reveal_with_fuel(pow256, 9);
}

proof fn lemma_le_bound(b: Seq<u8>)
    ensures
        le_value(b) < pow256(b.len()),
    decreases b.len(),
{
    if b.len() > 0 {
        lemma_le_bound(b.drop_first());
        let r = le_value(b.drop_first());
        let p = pow256((b.len() - 1) as nat);
        assert(b[0] as nat + 256 * r < 256 * p) by (nonlinear_arith)
            requires
                r < p,
                b[0] < 256,
        ;
    }
}

proof fn lemma_be_bound(b: Seq<u8>)
    ensures
        be_value(b) < pow256(b.len()),
    decreases b.len(),
{
    if b.len() > 0 {
        lemma_be_bound(b.drop_last());
        let r = be_value(b.drop_last());
        let p = pow256((b.len() - 1) as nat);
        assert(r * 256 + (b.last() as nat) < 256 * p) by (nonlinear_arith)
            requires
                r < p,
                b.last() < 256,
        ;
    }
}

/// The unsigned integer in the `n` bytes at `pos` of `buf`, in byte order
/// `order`.
pub fn read_uint(buf: &[u8], pos: usize, n: usize, order: ByteOrder) -> (v: u64)
    requires
        pos + n <= buf@.len(),
        n <= 8,
    ensures
        v == uint_at(buf@, pos as int, n as int, order),
{
    let ghost s = buf@.subrange(pos as int, pos + n);
    let len = buf.len();
    proof {
        lemma_pow256_8();
    }
    match order {
        ByteOrder::Little => {
            let mut v: u64 = 0;
            let mut i: usize = n;
            while i > 0
                invariant
                    i <= n <= 8,
                    pos + n <= buf@.len(),
                    len == buf@.len(),
                    s == buf@.subrange(pos as int, pos + n),
                    pow256(8) == 0x1_0000_0000_0000_0000,
                    v == le_value(s.subrange(i as int, n as int)),
                decreases i,
            {
                let ghost t = s.subrange(i - 1, n as int);
                assert(t.drop_first() =~= s.subrange(i as int, n as int));
                assert(t[0] == buf@[pos + i - 1]);
                proof {
                    lemma_le_bound(t);
                    lemma_pow256_grows(t.len(), 8);
                }
                v = v * 256 + buf[pos + i - 1] as u64;
                i -= 1;
            }
            assert(s.subrange(0, n as int) =~= s);
            v
        },
        ByteOrder::Big => {
            let mut v: u64 = 0;
            let mut i: usize = 0;
            while i < n
                invariant
                    i <= n <= 8,
                    pos + n <= buf@.len(),
                    len == buf@.len(),
                    s == buf@.subrange(pos as int, pos + n),
                    pow256(8) == 0x1_0000_0000_0000_0000,
                    v == be_value(s.subrange(0, i as int)),
                decreases n - i,
            {
                let ghost t = s.subrange(0, i + 1);
                assert(t.drop_last() =~= s.subrange(0, i as int));
                assert(t.last() == buf@[pos + i]);
                proof {
                    lemma_be_bound(t);
                    lemma_pow256_grows(t.len(), 8);
                }
                v = v * 256 + buf[pos + i] as u64;
                i += 1;
            }
            assert(s.subrange(0, n as int) =~= s);
            v
        },
    }
}

/// Whether eight bytes at `offset` into an attribute of `data_len` bytes
/// starting at `base` lie inside both the attribute and the buffer.
pub open spec fn u64_field_fits(buf_len: int, base: int, offset: int, data_len: int) -> bool {
    offset + 8 <= data_len && base + offset + 8 <= buf_len
}

/// The 64-bit counter at `offset` into an attribute of `data_len` bytes
/// that starts at `base` in `buf`, when it lies inside both the attribute
/// and the buffer.
pub open spec fn counter_field(buf: Seq<u8>, base: int, offset: int, data_len: int, o: ByteOrder) -> Option<u64> {
    if u64_field_fits(buf.len() as int, base, offset, data_len) {
        Some(uint_at(buf, base + offset, 8, o) as u64)
    } else {
        None
    }
}

/// Reads the 64-bit counter at `offset` into an attribute of `data_len`
/// bytes that starts at `base` in `buf`, in byte order `order`; `None`
/// when it does not lie inside both the attribute and the buffer.
pub fn read_u64(buf: &[u8], base: usize, offset: usize, data_len: usize, order: ByteOrder) -> (r: Option<u64>)
    ensures
        r == counter_field(buf@, base as int, offset as int, data_len as int, order),
{
    let len = buf.len();
    if offset > data_len || data_len - offset < 8 || base > len || len - base < offset || len - base - offset < 8 {
        return None;
    }
    Some(read_uint(buf, base + offset, 8, order))
}

/// Netlink message type that ends a dump.
pub const NLMSG_DONE: u64 = 3;
/// Netlink message type of a socket diagnostics reply.
pub const SOCK_DIAG_BY_FAMILY: u64 = 20;
/// Attribute type of the `tcp_info` block in a socket diagnostics reply.
pub const INET_DIAG_INFO: u64 = 2;
/// Offset within `tcp_info` of the count of bytes the peer acknowledged.
pub const TCPI_BYTES_ACKED_OFF: usize = 120;
/// Offset within `tcp_info` of the count of bytes received.
pub const TCPI_BYTES_RECEIVED_OFF: usize = 128;
/// Length of a netlink message header.
pub const NLMSG_HDR_LEN: usize = 16;
/// Length of the fixed part of a socket diagnostics reply.
pub const DIAG_MSG_LEN: usize = 72;
/// Offset of the socket inode within the fixed part of a reply.
pub const DIAG_INODE_OFF: usize = 68;

/// `x` rounded up to a multiple of four, the alignment of netlink messages
/// and attributes.
pub open spec fn align4(x: int) -> int {
    if x % 4 == 0 {
        x
    } else {
        x + 4 - x % 4
    }
}

pub open spec fn or_zero(x: Option<u64>) -> u64 {
    match x {
        Some(v) => v,
        None => 0,
    }
}

/// The traffic reported by the attributes from `apos` to `msg_end` of the
/// reply for socket `inode`: one entry (inode, bytes received, bytes sent)
/// for each `tcp_info` attribute holding at least one of the two counters,
/// a missing counter read as zero. The walk stops at an attribute shorter
/// than its own header.
pub open spec fn attr_traffic(buf: Seq<u8>, inode: u64, apos: int, msg_end: int, o: ByteOrder) -> Seq<(u64, u64, u64)>
    decreases msg_end - apos,
{
    if apos + 4 > msg_end {
        Seq::empty()
    } else {
        let alen = uint_at(buf, apos, 2, o) as int;
        if alen < 4 {
            Seq::empty()
        } else {
            let here = if uint_at(buf, apos + 2, 2, o) == INET_DIAG_INFO {
                let rx = counter_field(buf, apos + 4, TCPI_BYTES_RECEIVED_OFF as int, alen - 4, o);
                let tx = counter_field(buf, apos + 4, TCPI_BYTES_ACKED_OFF as int, alen - 4, o);
                if rx is Some || tx is Some {
                    seq![(inode, or_zero(rx), or_zero(tx))]
                } else {
                    Seq::empty()
                }
            } else {
                Seq::empty()
            };
            let next = apos + align4(alen);
            if next <= msg_end {
                here + attr_traffic(buf, inode, next, msg_end, o)
            } else {
                here
            }
        }
    }
}

/// The traffic reported by the netlink messages in the first `n` bytes of
/// a received buffer, from position `pos` on, and whether the walk met the
/// message that ends the dump. The walk stops at a message shorter than its
/// header or running past the received bytes.
pub open spec fn reply_traffic(buf: Seq<u8>, n: int, pos: int, o: ByteOrder) -> (Seq<(u64, u64, u64)>, bool)
    decreases n - pos,
{
    if pos + NLMSG_HDR_LEN > n {
        (Seq::empty(), false)
    } else {
        let msg_len = uint_at(buf, pos, 4, o) as int;
        if msg_len < NLMSG_HDR_LEN || pos + msg_len > n {
            (Seq::empty(), false)
        } else {
            let typ = uint_at(buf, pos + 4, 2, o);
            if typ == NLMSG_DONE {
                (Seq::empty(), true)
            } else {
                let here = if typ == SOCK_DIAG_BY_FAMILY && NLMSG_HDR_LEN + DIAG_MSG_LEN <= msg_len {
                    attr_traffic(
                        buf,
                        uint_at(buf, pos + NLMSG_HDR_LEN + DIAG_INODE_OFF, 4, o) as u64,
                        pos + NLMSG_HDR_LEN + DIAG_MSG_LEN,
                        pos + msg_len,
                        o,
                    )
                } else {
                    Seq::empty()
                };
                let next = pos + align4(msg_len);
                if next <= n {
                    let (rest, done) = reply_traffic(buf, n, next, o);
                    (here + rest, done)
                } else {
                    (here, false)
                }
            }
        }
    }
}

proof fn lemma_uint_bound(b: Seq<u8>, o: ByteOrder)
    ensures
        uint_value(b, o) < pow256(b.len()),
{
    match o {
        ByteOrder::Little => lemma_le_bound(b),
        ByteOrder::Big => lemma_be_bound(b),
    }
}

proof fn lemma_pow256_small()
    ensures
        pow256(2) == 0x1_0000,
        pow256(4) == 0x1_0000_0000,
{
    reveal_with_fuel(pow256, 5);
}

/// The padding that brings `x` to a multiple of four.
fn pad4(x: usize) -> (p: usize)
    ensures
        p < 4,
        x + p == align4(x as int),
{
    let r = x % 4;
    if r == 0 {
        0
    } else {
        4 - r
    }
}

fn attr_traffic_exec(buf: &[u8], inode: u64, start: usize, msg_end: usize, order: ByteOrder) -> (r: Vec<(u64, u64, u64)>)
    requires
        start <= msg_end <= buf@.len(),
    ensures
        r@ == attr_traffic(buf@, inode, start as int, msg_end as int, order),
{
    let ghost total = attr_traffic(buf@, inode, start as int, msg_end as int, order);
    let len = buf.len();
    let mut out: Vec<(u64, u64, u64)> = Vec::new();
    let mut apos: usize = start;
    proof {
        lemma_pow256_small();
    }
    loop
        invariant_except_break
            out@ + attr_traffic(buf@, inode, apos as int, msg_end as int, order) == total,
        invariant
            apos <= msg_end <= buf@.len(),
            len == buf@.len(),
            pow256(2) == 0x1_0000,
        ensures
            out@ == total,
        decreases msg_end - apos,
    {
        if msg_end - apos < 4 {
            assert(out@ + Seq::<(u64, u64, u64)>::empty() =~= out@);
            assert(out@ == total);
            break;
        }
        let alen64 = read_uint(buf, apos, 2, order);
        proof {
            lemma_uint_bound(buf@.subrange(apos as int, apos + 2), order);
        }
        let alen = alen64 as usize;
        if alen < 4 {
            assert(out@ + Seq::<(u64, u64, u64)>::empty() =~= out@);
            assert(out@ == total);
            break;
        }
        let typ = read_uint(buf, apos + 2, 2, order);
        let ghost before = out@;
        if typ == INET_DIAG_INFO {
            let data = apos + 4;
            let dlen = alen - 4;
            let rx = read_u64(buf, data, TCPI_BYTES_RECEIVED_OFF, dlen, order);
            let tx = read_u64(buf, data, TCPI_BYTES_ACKED_OFF, dlen, order);
            if rx.is_some() || tx.is_some() {
                let rxv = match rx {
                    Some(v) => v,
                    None => 0,
                };
                let txv = match tx {
                    Some(v) => v,
                    None => 0,
                };
                out.push((inode, rxv, txv));
            }
        }
        let pad = pad4(alen);
        if alen > msg_end - apos || pad > msg_end - apos - alen {
            let ghost here = out@.subrange(before.len() as int, out@.len() as int);
            assert(out@ =~= before + here);
            assert(attr_traffic(buf@, inode, apos as int, msg_end as int, order) == here);
            assert(out@ == total);
            break;
        }
        let ghost old_apos = apos;
        apos = apos + alen + pad;
        proof {
            let here = out@.subrange(before.len() as int, out@.len() as int);
            assert(out@ =~= before + here);
            assert(attr_traffic(buf@, inode, old_apos as int, msg_end as int, order) == here + attr_traffic(
                buf@,
                inode,
                apos as int,
                msg_end as int,
                order,
            ));
            assert(before + (here + attr_traffic(buf@, inode, apos as int, msg_end as int, order)) =~= (before + here)
                + attr_traffic(buf@, inode, apos as int, msg_end as int, order));
        }
    }
    out
}

/// The traffic reported by the netlink messages in the first `n` bytes of
/// `buf`, one received batch of a socket diagnostics dump, as entries
/// (socket inode, bytes received, bytes sent); and whether the batch ends
/// the dump.
pub fn diag_reply_traffic(buf: &[u8], n: usize, order: ByteOrder) -> (r: (Vec<(u64, u64, u64)>, bool))
    requires
        n <= buf@.len(),
    ensures
        (r.0@, r.1) == reply_traffic(buf@, n as int, 0, order),
{
    let ghost total = reply_traffic(buf@, n as int, 0, order);
    let len = buf.len();
    let mut out: Vec<(u64, u64, u64)> = Vec::new();
    let mut pos: usize = 0;
    let mut done = false;
    proof {
        lemma_pow256_small();
    }
    loop
        invariant_except_break
            !done,
            out@ + reply_traffic(buf@, n as int, pos as int, order).0 == total.0,
            reply_traffic(buf@, n as int, pos as int, order).1 == total.1,
        invariant
            pos <= n <= buf@.len(),
            len == buf@.len(),
            pow256(4) == 0x1_0000_0000,
            pow256(2) == 0x1_0000,
        ensures
            out@ == total.0,
            done == total.1,
        decreases n - pos,
    {
        if n - pos < NLMSG_HDR_LEN {
            assert(out@ + Seq::<(u64, u64, u64)>::empty() =~= out@);
            assert(out@ == total.0 && done == total.1);
            break;
        }
        let len64 = read_uint(buf, pos, 4, order);
        proof {
            lemma_uint_bound(buf@.subrange(pos as int, pos + 4), order);
        }
        let msg_len = len64 as usize;
        if msg_len < NLMSG_HDR_LEN || msg_len > n - pos {
            assert(out@ + Seq::<(u64, u64, u64)>::empty() =~= out@);
            assert(out@ == total.0 && done == total.1);
            break;
        }
        let typ = read_uint(buf, pos + 4, 2, order);
        if typ == NLMSG_DONE {
            assert(out@ + Seq::<(u64, u64, u64)>::empty() =~= out@);
            done = true;
            assert(out@ == total.0 && done == total.1);
            break;
        }
        let ghost before = out@;
        if typ == SOCK_DIAG_BY_FAMILY && NLMSG_HDR_LEN + DIAG_MSG_LEN <= msg_len {
            let inode = read_uint(buf, pos + NLMSG_HDR_LEN + DIAG_INODE_OFF, 4, order);
            let mut ev = attr_traffic_exec(buf, inode, pos + NLMSG_HDR_LEN + DIAG_MSG_LEN, pos + msg_len, order);
            out.append(&mut ev);
        }
        let pad = pad4(msg_len);
        if pad > n - pos - msg_len {
            let ghost here = out@.subrange(before.len() as int, out@.len() as int);
            assert(out@ =~= before + here);
            assert(reply_traffic(buf@, n as int, pos as int, order) == (here, false));
            assert(out@ == total.0 && done == total.1);
            break;
        }
        let ghost old_pos = pos;
        pos = pos + msg_len + pad;
        proof {
            let here = out@.subrange(before.len() as int, out@.len() as int);
            assert(out@ =~= before + here);
            let rest = reply_traffic(buf@, n as int, pos as int, order);
            assert(reply_traffic(buf@, n as int, old_pos as int, order) == (here + rest.0, rest.1));
            assert(before + (here + rest.0) =~= (before + here) + rest.0);
        }
    }
    (out, done)
}


pub open spec fn link_views(v: Seq<(u32, String)>) -> Seq<(u32, Seq<char>)> {
    v.map_values(|p: (u32, String)| (p.0, p.1@))
}

/// Which process holds each socket, from the descriptor links `(pid,
/// link target)` in the order they were listed: the first process listed
/// with a socket is its holder.
pub open spec fn socket_owners(links: Seq<(u32, Seq<char>)>) -> Map<u64, u32>
    decreases links.len(),
{
    if links.len() == 0 {
        Map::empty()
    } else {
        let m = socket_owners(links.drop_last());
        let (pid, l) = links.last();
        match socket_inode_of(l) {
            Some(i) => if m.contains_key(i as u64) {
                m
            } else {
                m.insert(i as u64, pid)
            },
            None => m,
        }
    }
}

/// Maps socket inodes to the process holding them, from the link target of
/// each descriptor of each process, `(pid, target)` in the order listed.
pub fn build_inode_pid_map(links: &Vec<(u32, String)>) -> (m: HashMap<u64, u32>)
    ensures
        m@ == socket_owners(link_views(links@)),
{
    let ghost lv = link_views(links@);
    let mut m: HashMap<u64, u32> = HashMap::new();
    let mut i: usize = 0;
    while i < links.len()
        invariant
            i <= links@.len(),
            lv == link_views(links@),
            m@ == socket_owners(lv.take(i as int)),
        decreases links.len() - i,
    {
        proof {
            assert(lv.take(i + 1).drop_last() =~= lv.take(i as int));
            assert(lv.take(i + 1).last() == (links@[i as int].0, links@[i as int].1@));
        }
        let pid = links[i].0;
        match socket_inode(links[i].1.as_str()) {
            Some(inode) => {
                if !m.contains_key(&inode) {
                    m.insert(inode, pid);
                }
            },
            None => {},
        }
        i += 1;
    }
    assert(lv.take(links@.len() as int) =~= lv);
    m
}

/// The processes that hold a socket with traffic in `t`.
pub open spec fn owned_pids(owners: Map<u64, u32>, t: Seq<(u64, u64, u64)>) -> Set<u32>
    decreases t.len(),
{
    if t.len() == 0 {
        Set::empty()
    } else {
        let s = owned_pids(owners, t.drop_last());
        if owners.contains_key(t.last().0) {
            s.insert(owners[t.last().0])
        } else {
            s
        }
    }
}

/// Bytes received over the sockets of process `pid` in `t`.
pub open spec fn pid_rx(owners: Map<u64, u32>, t: Seq<(u64, u64, u64)>, pid: u32) -> int
    decreases t.len(),
{
    if t.len() == 0 {
        0
    } else {
        pid_rx(owners, t.drop_last(), pid) + if owners.contains_key(t.last().0) && owners[t.last().0] == pid {
            t.last().1 as int
        } else {
            0
        }
    }
}

/// Bytes sent over the sockets of process `pid` in `t`.
pub open spec fn pid_tx(owners: Map<u64, u32>, t: Seq<(u64, u64, u64)>, pid: u32) -> int
    decreases t.len(),
{
    if t.len() == 0 {
        0
    } else {
        pid_tx(owners, t.drop_last(), pid) + if owners.contains_key(t.last().0) && owners[t.last().0] == pid {
            t.last().2 as int
        } else {
            0
        }
    }
}

/// A process's totals: its sums, held at the largest `u64`.
pub open spec fn pid_snapshot(owners: Map<u64, u32>, t: Seq<(u64, u64, u64)>, pid: u32) -> ProcessNetSnapshot {
    ProcessNetSnapshot { rx_bytes: capped(pid_rx(owners, t, pid)), tx_bytes: capped(pid_tx(owners, t, pid)) }
}

proof fn lemma_pid_sums(owners: Map<u64, u32>, t: Seq<(u64, u64, u64)>, pid: u32)
    ensures
        pid_rx(owners, t, pid) >= 0,
        pid_tx(owners, t, pid) >= 0,
        !owned_pids(owners, t).contains(pid) ==> pid_rx(owners, t, pid) == 0 && pid_tx(owners, t, pid) == 0,
    decreases t.len(),
{
    if t.len() > 0 {
        lemma_pid_sums(owners, t.drop_last(), pid);
    }
}

/// Bytes received and sent by each process: `traffic` lists each socket's
/// counters as (inode, received, sent), `owners` which process holds each
/// socket. Every process of `pids` has an entry; when no process holds a
/// socket at all, there are no entries.
pub fn collect_all(pids: &Vec<u32>, owners: &HashMap<u64, u32>, traffic: &Vec<(u64, u64, u64)>) -> (r: HashMap<
    u32,
    ProcessNetSnapshot,
>)
    ensures
        owners@.is_empty() ==> r@ == Map::<u32, ProcessNetSnapshot>::empty(),
        !owners@.is_empty() ==> forall|p: u32| #[trigger]
            r@.contains_key(p) <==> (pids@.contains(p) || owned_pids(owners@, traffic@).contains(p)),
        forall|p: u32| #[trigger] r@.contains_key(p) ==> r@[p] == pid_snapshot(owners@, traffic@, p),
{
    let mut r: HashMap<u32, ProcessNetSnapshot> = HashMap::new();
    if owners.is_empty() {
        return r;
    }
    let ghost t = traffic@;
    let mut k: usize = 0;
    while k < traffic.len()
        invariant
            k <= t.len(),
            t == traffic@,
            forall|p: u32| #[trigger] r@.contains_key(p) <==> owned_pids(owners@, t.take(k as int)).contains(p),
            forall|p: u32| #[trigger] r@.contains_key(p) ==> r@[p] == pid_snapshot(owners@, t.take(k as int), p),
        decreases traffic.len() - k,
    {
        let ghost pre = t.take(k as int);
        let ghost cur = t.take(k + 1);
        proof {
            assert(cur.drop_last() =~= pre);
            assert(cur.last() == t[k as int]);
        }
        let (inode, rx, tx) = traffic[k];
        match owners.get(&inode) {
            Some(pid_ref) => {
                let pid = *pid_ref;
                let prev = match r.get(&pid) {
                    Some(s) => *s,
                    None => ProcessNetSnapshot { rx_bytes: 0, tx_bytes: 0 },
                };
                proof {
                    lemma_pid_sums(owners@, pre, pid);
                }
                r.insert(
                    pid,
                    ProcessNetSnapshot { rx_bytes: prev.rx_bytes.saturating_add(rx), tx_bytes: prev.tx_bytes.saturating_add(tx) },
                );
                proof {
                    assert forall|p: u32| #[trigger] r@.contains_key(p) implies r@[p] == pid_snapshot(owners@, cur, p) by {
                        lemma_pid_sums(owners@, pre, p);
                    }
                }
            },
            None => {
                proof {
                    assert forall|p: u32| #[trigger] r@.contains_key(p) implies r@[p] == pid_snapshot(owners@, cur, p) by {
                        assert(pid_rx(owners@, cur, p) == pid_rx(owners@, pre, p));
                    }
                }
            },
        }
        k += 1;
    }
    assert(t.take(t.len() as int) =~= t);
    let mut j: usize = 0;
    while j < pids.len()
        invariant
            j <= pids@.len(),
            t == traffic@,
            forall|p: u32| #[trigger]
                r@.contains_key(p) <==> (pids@.take(j as int).contains(p) || owned_pids(owners@, t).contains(p)),
            forall|p: u32| #[trigger] r@.contains_key(p) ==> r@[p] == pid_snapshot(owners@, t, p),
        decreases pids.len() - j,
    {
        let pid = pids[j];
        if !r.contains_key(&pid) {
            proof {
                lemma_pid_sums(owners@, t, pid);
            }
            r.insert(pid, ProcessNetSnapshot { rx_bytes: 0, tx_bytes: 0 });
        }
        proof {
            let a = pids@.take(j as int);
            let b = pids@.take(j + 1);
            assert(b =~= a.push(pid));
            assert forall|p: u32| #[trigger] r@.contains_key(p) <==> (b.contains(p) || owned_pids(owners@, t).contains(p)) by {
                if b.contains(p) && !a.contains(p) {
                    let q = choose|q: int| 0 <= q < b.len() && #[trigger] b[q] == p;
                    if q < j {
                        assert(a[q] == p);
                    }
                }
                if a.contains(p) {
                    let q = choose|q: int| 0 <= q < a.len() && #[trigger] a[q] == p;
                    assert(b[q] == p);
                }
                if p == pid {
                    assert(b[j as int] == p);
                }
            }
        }
        j += 1;
    }
    assert(pids@.take(pids@.len() as int) =~= pids@);
    r
}

} // verus!
