//! TCP health counters from `/proc/net/snmp` and `/proc/net/netstat`, whose
//! blocks pair a header line of names with a line of values.
use vstd::prelude::*;
use crate::text::{
    chars_of, lines, parse_u64, parse_unsigned, seqs, split_lines, split_words, string_from_chars,
    words,
};
use crate::collectors::ports::chars_eq;

verus! {

/// `s` without its trailing `c` characters.
pub open spec fn trim_end_char(s: Seq<char>, c: char) -> Seq<char>
    decreases s.len(),
{
    if s.len() > 0 && s.last() == c {
        trim_end_char(s.drop_last(), c)
    } else {
        s
    }
}

/// The entries of one block from its first `n` columns: `prefix/name` for
/// each column whose value reads as `u64`.
pub open spec fn block_columns(prefix: Seq<char>, h: Seq<Seq<char>>, v: Seq<Seq<char>>, n: int) -> Seq<
    (Seq<char>, nat),
>
    decreases n,
{
    if n <= 1 {
        seq![]
    } else {
        let p = block_columns(prefix, h, v, n - 1);
        match parse_unsigned(v[n - 1], u64::MAX as nat) {
            Some(x) => p.push((prefix + seq!['/'] + h[n - 1], x)),
            None => p,
        }
    }
}

/// The entries of a header line and a value line; the prefix is the header's
/// first word without its trailing colons.
pub open spec fn block_entries(header: Seq<char>, values: Seq<char>) -> Seq<(Seq<char>, nat)> {
    let h = words(header);
    let v = words(values);
    if h.len() >= 2 && v.len() >= 2 {
        block_columns(trim_end_char(h[0], ':'), h, v, if h.len() < v.len() { h.len() as int } else { v.len() as int })
    } else {
        seq![]
    }
}

/// The entries of the first `b` two-line blocks.
pub open spec fn snmp_blocks(ls: Seq<Seq<char>>, b: int) -> Seq<(Seq<char>, nat)>
    decreases b,
{
    if b <= 0 {
        seq![]
    } else {
        snmp_blocks(ls, b - 1) + block_entries(ls[2 * b - 2], ls[2 * b - 1])
    }
}

/// All `prefix/name = value` entries of an SNMP-style text, in order.
pub open spec fn snmp_entries(content: Seq<char>) -> Seq<(Seq<char>, nat)> {
    snmp_blocks(lines(content), lines(content).len() as int / 2)
}

pub open spec fn entry_views(v: Seq<(String, u64)>) -> Seq<(Seq<char>, nat)> {
    v.map_values(|e: (String, u64)| (e.0@, e.1 as nat))
}

fn trim_end_char_exec(s: &[char], c: char) -> (r: Vec<char>)
    ensures
        r@ == trim_end_char(s@, c),
{
    let mut j = s.len();
    assert(s@.take(s.len() as int) =~= s@);
    while j > 0 && s[j - 1] == c
        invariant
            j <= s.len(),
            trim_end_char(s@, c) == trim_end_char(s@.take(j as int), c),
        decreases j,
    {
        assert(s@.take(j as int).drop_last() =~= s@.take(j - 1));
        j -= 1;
    }
    let r = crate::text::slice_chars(s, 0, j);
    assert(r@ =~= s@.take(j as int));
    r
}

fn push_block_entries(out: &mut Vec<(String, u64)>, header: &Vec<char>, values: &Vec<char>)
    ensures
        entry_views(final(out)@) == entry_views(old(out)@) + block_entries(header@, values@),
{
    let h = split_words(header);
    let v = split_words(values);
    let ghost hv = seqs(h@);
    let ghost vv = seqs(v@);
    if h.len() >= 2 && v.len() >= 2 {
        assert(h@[0]@ == hv[0]);
        let prefix = trim_end_char_exec(h[0].as_slice(), ':');
        let n = if h.len() < v.len() {
            h.len()
        } else {
            v.len()
        };
        let ghost start = entry_views(out@);
        assert(block_columns(prefix@, hv, vv, 1) =~= seq![]);
        let mut k: usize = 1;
        while k < n
            invariant
                1 <= k <= n,
                n <= h.len(),
                n <= v.len(),
                hv == seqs(h@),
                vv == seqs(v@),
                entry_views(out@) == start + block_columns(prefix@, hv, vv, k as int),
            decreases n - k,
        {
            assert(v@[k as int]@ == vv[k as int]);
            assert(h@[k as int]@ == hv[k as int]);
            let ghost before = out@;
            if let Some(x) = parse_u64(v[k].as_slice()) {
                let mut key = prefix.clone();
                key.push('/');
                let mut m: usize = 0;
                let ghost kstart = key@;
                while m < h[k].len()
                    invariant
                        m <= h@[k as int]@.len(),
                        k < h.len(),
                        key@ == kstart + h@[k as int]@.take(m as int),
                    decreases h@[k as int]@.len() - m,
                {
                    key.push(h[k][m]);
                    m += 1;
                    assert(key@ =~= kstart + h@[k as int]@.take(m as int));
                }
                assert(h@[k as int]@.take(h@[k as int]@.len() as int) =~= h@[k as int]@);
                let ks = string_from_chars(key.as_slice());
                assert(ks@ =~= prefix@ + seq!['/'] + hv[k as int]);
                out.push((ks, x));
                assert(entry_views(out@) =~= entry_views(before).push(
                    (prefix@ + seq!['/'] + hv[k as int], x as nat),
                ));
            }
            k += 1;
        }
    } else {
        assert(entry_views(out@) =~= entry_views(out@) + Seq::<(Seq<char>, nat)>::empty());
    }
}

/// Reads an SNMP-style text (`/proc/net/snmp`, `/proc/net/netstat`) into
/// `prefix/name = value` entries, in order: each pair of lines is a header
/// (`Tcp: RtoAlgorithm ...`) and its values (`Tcp: 1 ...`); columns whose
/// value does not read as `u64` are left out.
pub fn parse_snmp_block(content: &str) -> (r: Vec<(String, u64)>)
    ensures
        entry_views(r@) == snmp_entries(content@),
{
    let cs = chars_of(content);
    let ls = split_lines(cs.as_slice());
    let ghost lv = seqs(ls@);
    let mut out: Vec<(String, u64)> = Vec::new();
    assert(entry_views(out@) =~= snmp_blocks(lv, 0));
    let mut i: usize = 0;
    while i + 1 < ls.len()
        invariant
            i % 2 == 0,
            i <= ls.len(),
            lv == seqs(ls@),
            lv == lines(content@),
            entry_views(out@) == snmp_blocks(lv, i as int / 2),
        decreases ls.len() - i,
    {
        assert(ls@[i as int]@ == lv[i as int]);
        assert(ls@[i + 1]@ == lv[i + 1]);
        push_block_entries(&mut out, &ls[i], &ls[i + 1]);
        i += 2;
    }
    assert(i as int / 2 == ls.len() / 2);
    out
}

/// The value of the last entry named `key`, as a map built from the entries
/// in order would hold it.
pub open spec fn last_value(es: Seq<(Seq<char>, nat)>, key: Seq<char>) -> Option<nat>
    decreases es.len(),
{
    if es.len() == 0 {
        None
    } else if es.last().0 == key {
        Some(es.last().1)
    } else {
        last_value(es.drop_last(), key)
    }
}

/// Looks up an entry such as `Tcp/RetransSegs`.
pub fn snmp_lookup(entries: &[(String, u64)], key: &str) -> (r: Option<u64>)
    ensures
        r is Some <==> last_value(entry_views(entries@), key@) is Some,
        r is Some ==> r->0 as nat == last_value(entry_views(entries@), key@)->0,
{
    let kc = chars_of(key);
    let ghost ev = entry_views(entries@);
    let mut j = entries.len();
    assert(ev.take(ev.len() as int) =~= ev);
    while j > 0
        invariant
            j <= entries.len(),
            ev == entry_views(entries@),
            kc@ == key@,
            last_value(ev, key@) == last_value(ev.take(j as int), key@),
        decreases j,
    {
        let e = &entries[j - 1];
        let ec = chars_of(e.0.as_str());
        assert(ev[j - 1] == (entries@[j - 1].0@, entries@[j - 1].1 as nat));
        assert(ev.take(j as int).last() == (ec@, e.1 as nat));
        if chars_eq(ec.as_slice(), kc.as_slice()) {
            assert(ev.take(j as int).last().0 == key@);
            assert(last_value(ev.take(j as int), key@) == Some(e.1 as nat));
            return Some(e.1);
        }
        assert(ev.take(j as int).drop_last() =~= ev.take(j - 1));
        j -= 1;
    }
    None
}

/// Remembers the last retransmission and sent-segment totals.
pub struct TcpStatsCollector {
    pub prev_retrans: Option<u64>,
    pub prev_out_segs: Option<u64>,
}

impl TcpStatsCollector {
    pub fn new() -> (r: Self)
        ensures
            r.prev_retrans is None,
            r.prev_out_segs is None,
    {
        TcpStatsCollector { prev_retrans: None, prev_out_segs: None }
    }

    /// Records new totals; when earlier totals were recorded, returns the
    /// increases (0 where a total went down) of retransmitted and sent
    /// segments.
    pub fn record(&mut self, retrans_segs: u64, out_segs: u64) -> (r: Option<(u64, u64)>)
        ensures
            final(self).prev_retrans == Some(retrans_segs),
            final(self).prev_out_segs == Some(out_segs),
            r is Some <==> (old(self).prev_retrans is Some && old(self).prev_out_segs is Some),
            r matches Some((dr, dout)) ==> (retrans_segs >= old(self).prev_retrans->0 ==> dr
                == retrans_segs - old(self).prev_retrans->0) && (out_segs
                >= old(self).prev_out_segs->0 ==> dout == out_segs - old(self).prev_out_segs->0)
                && (retrans_segs < old(self).prev_retrans->0 ==> dr == 0) && (out_segs
                < old(self).prev_out_segs->0 ==> dout == 0),
    {
        let r = match (self.prev_retrans, self.prev_out_segs) {
            (Some(pr), Some(po)) => Some(
                (retrans_segs.saturating_sub(pr), out_segs.saturating_sub(po)),
            ),
            _ => None,
        };
        self.prev_retrans = Some(retrans_segs);
        self.prev_out_segs = Some(out_segs);
        r
    }
}

} // verus!
