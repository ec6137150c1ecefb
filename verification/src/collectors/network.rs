//! Network interfaces: which are loopback or container bridges, which one to
//! monitor by default, and the error and drop counters of `/proc/net/dev`.
use vstd::prelude::*;
use crate::collectors::ports::{chars_eq, string_views};
use crate::collectors::proxy::{numeric_words, numeric_words_exec};
use crate::models::NetworkInterface;
use crate::order::{
    lemma_insort_by_at, lemma_lex_irreflexive, lemma_lex_transitive, lemma_lex_trichotomy,
    lemma_sort_by_key, lex_lt, lex_lt_exec, sort_by_key,
};
use crate::text::{
    chars_of, lines, seqs, split_lines, split_once_chars, split_once, split_words, starts_with,
    starts_with_chars, string_from_chars, trim, trim_chars, words, parse_unsigned, parse_u64,
};

verus! {

/// Names of Docker bridges and virtual Ethernet pairs.
pub open spec fn is_docker_name(name: Seq<char>) -> bool {
    starts_with(name, "docker"@) || starts_with(name, "br-"@) || starts_with(name, "veth"@)
}

pub open spec fn is_loopback_name(name: Seq<char>) -> bool {
    name == "lo"@ || starts_with(name, "lo0"@)
}

/// Whether an interface is a Docker bridge or a virtual Ethernet pair.
pub fn is_docker(name: &str) -> (r: bool)
    ensures
        r == is_docker_name(name@),
{
    let n = chars_of(name);
    starts_with_chars(n.as_slice(), chars_of("docker").as_slice()) || starts_with_chars(
        n.as_slice(),
        chars_of("br-").as_slice(),
    ) || starts_with_chars(n.as_slice(), chars_of("veth").as_slice())
}

/// Whether an interface is the loopback (`lo`, `lo0...`).
pub fn is_loopback(name: &str) -> (r: bool)
    ensures
        r == is_loopback_name(name@),
{
    let n = chars_of(name);
    chars_eq(n.as_slice(), chars_of("lo").as_slice()) || starts_with_chars(
        n.as_slice(),
        chars_of("lo0").as_slice(),
    )
}

/// The selector entry for an interface: loopback and container interfaces
/// are shown as down, all others as up.
pub fn interface_for(name: &str) -> (r: NetworkInterface)
    ensures
        r.name@ == name@,
        r.is_loopback == is_loopback_name(name@),
        r.is_up == (!is_loopback_name(name@) && !is_docker_name(name@)),
        r.ip_address is None,
{
    let lo = is_loopback(name);
    let dk = is_docker(name);
    NetworkInterface { name: name.to_owned(), is_up: !lo && !dk, is_loopback: lo, ip_address: None }
}

/// A name as its own sort key.
pub open spec fn name_key() -> spec_fn(Seq<char>) -> Seq<char> {
    |n: Seq<char>| n
}

/// Sorts names, keeping equal names in their order.
fn sort_names(v: &Vec<String>) -> (r: Vec<String>)
    ensures
        string_views(r@) == sort_by_key(string_views(v@), name_key()),
{
    let ghost input = string_views(v@);
    let mut out: Vec<String> = Vec::new();
    let mut i: usize = 0;
    while i < v.len()
        invariant
            i <= v@.len(),
            input == string_views(v@),
            string_views(out@) == sort_by_key(input.take(i as int), name_key()),
        decreases v.len() - i,
    {
        let x = v[i].clone();
        let xk = chars_of(x.as_str());
        let ghost s = string_views(out@);
        assert(x@ == input[i as int]);
        let mut j: usize = out.len();
        while j > 0 && lex_lt_exec(xk.as_slice(), chars_of(out[j - 1].as_str()).as_slice())
            invariant
                j <= out@.len(),
                s == string_views(out@),
                xk@ == x@,
                name_key()(x@) == x@,
                forall|k: int| j <= k < s.len() ==> lex_lt(x@, #[trigger] s[k]),
            decreases j,
        {
            assert(s[j - 1] == out@[j - 1]@);
            j -= 1;
        }
        if j > 0 {
            assert(s[j - 1] == out@[j - 1]@);
        }
        proof {
            lemma_insort_by_at(s, x@, name_key(), j as int);
            assert(input.take(i as int + 1).drop_last() =~= input.take(i as int));
        }
        out.insert(j, x);
        assert(string_views(out@) =~= s.take(j as int) + seq![x@] + s.skip(j as int));
        i += 1;
    }
    assert(input.take(v@.len() as int) =~= input);
    out
}

/// The interfaces named `names`, ordered by name: loopback and container
/// interfaces are shown as down, all others as up.
pub fn interfaces(names: &Vec<String>) -> (r: Vec<NetworkInterface>)
    ensures
        r@.len() == names@.len(),
        forall|i: int|
            0 <= i < r@.len() ==> {
                let n = sort_by_key(string_views(names@), name_key())[i];
                &&& (#[trigger] r@[i]).name@ == n
                &&& r@[i].is_loopback == is_loopback_name(n)
                &&& r@[i].is_up == (!is_loopback_name(n) && !is_docker_name(n))
                &&& r@[i].ip_address is None
            },
{
    let sorted = sort_names(names);
    proof {
        lemma_sort_by_key(string_views(names@), name_key());
    }
    let ghost sv = string_views(sorted@);
    let mut r: Vec<NetworkInterface> = Vec::new();
    let mut i: usize = 0;
    while i < sorted.len()
        invariant
            i <= sorted@.len(),
            sv == string_views(sorted@),
            sv == sort_by_key(string_views(names@), name_key()),
            r@.len() == i,
            forall|k: int|
                0 <= k < i ==> {
                    let n = sv[k];
                    &&& (#[trigger] r@[k]).name@ == n
                    &&& r@[k].is_loopback == is_loopback_name(n)
                    &&& r@[k].is_up == (!is_loopback_name(n) && !is_docker_name(n))
                    &&& r@[k].ip_address is None
                },
        decreases sorted.len() - i,
    {
        assert(sv[i as int] == sorted@[i as int]@);
        r.push(interface_for(sorted[i].as_str()));
        i += 1;
    }
    r
}

/// An interface that may be monitored by default.
pub open spec fn is_candidate_nic(name: Seq<char>) -> bool {
    !is_loopback_name(name) && !is_docker_name(name)
}

/// The interface monitored by default: the first by name among those that
/// are neither loopback nor container interfaces.
pub fn autodetect_nic(names: &[String]) -> (r: Option<String>)
    ensures
        r is None <==> forall|i: int| 0 <= i < names.len() ==> !is_candidate_nic(#[trigger] names@[i]@),
        r matches Some(n) ==> exists|i: int| 0 <= i < names.len() && names@[i]@ == n@ && is_candidate_nic(n@),
        r matches Some(n) ==> forall|i: int| 0 <= i < names.len() && is_candidate_nic(#[trigger] names@[i]@)
            ==> !lex_lt(names@[i]@, n@),
{
    let mut best: Option<usize> = None;
    let mut best_chars: Vec<char> = Vec::new();
    let mut i: usize = 0;
    while i < names.len()
        invariant
            i <= names.len(),
            best is None <==> forall|k: int| 0 <= k < i ==> !is_candidate_nic(#[trigger] names@[k]@),
            best matches Some(b) ==> b < i && names@[b as int]@ == best_chars@ && is_candidate_nic(best_chars@),
            best is Some ==> forall|k: int| 0 <= k < i && is_candidate_nic(#[trigger] names@[k]@)
                ==> !lex_lt(names@[k]@, best_chars@),
        decreases names.len() - i,
    {
        let n = chars_of(names[i].as_str());
        let lo = is_loopback(names[i].as_str());
        let dk = is_docker(names[i].as_str());
        if !lo && !dk {
            let better = match best {
                None => true,
                Some(_) => lex_lt_exec(n.as_slice(), best_chars.as_slice()),
            };
            if better {
                proof {
                    if best is Some {
                        assert forall|k: int| 0 <= k < i + 1 && is_candidate_nic(#[trigger] names@[k]@)
                            implies !lex_lt(names@[k]@, n@) by {
                            if k < i {
                                lemma_lex_trichotomy(names@[k]@, best_chars@);
                                if lex_lt(names@[k]@, n@) {
                                    lemma_lex_transitive(names@[k]@, n@, best_chars@);
                                }
                            } else {
                                lemma_lex_irreflexive(n@);
                            }
                        }
                    } else {
                        assert forall|k: int| 0 <= k < i + 1 && is_candidate_nic(#[trigger] names@[k]@)
                            implies !lex_lt(names@[k]@, n@) by {
                            lemma_lex_irreflexive(n@);
                        }
                    }
                }
                best = Some(i);
                best_chars = n;
            } else {
                proof {
                    assert forall|k: int| 0 <= k < i + 1 && is_candidate_nic(#[trigger] names@[k]@)
                        implies !lex_lt(names@[k]@, best_chars@) by {}
                }
            }
        }
        i += 1;
    }
    match best {
        Some(b) => {
            let r = names[b].clone();
            Some(r)
        },
        None => None,
    }
}

/// Errors and drops of one interface, from `/proc/net/dev`.
#[derive(Clone, Debug)]
pub struct NetdevErrors {
    pub iface: String,
    pub rx_errors: u64,
    pub tx_errors: u64,
    pub rx_drops: u64,
    pub tx_drops: u64,
}

pub open spec fn netdev_view(e: NetdevErrors) -> (Seq<char>, nat, nat, nat, nat) {
    (e.iface@, e.rx_errors as nat, e.tx_errors as nat, e.rx_drops as nat, e.tx_drops as nat)
}

/// The counters a `/proc/net/dev` line gives: `iface: rx_bytes rx_packets
/// rx_errs rx_drop ... tx_bytes tx_packets tx_errs tx_drop ...`, among the
/// fields that read as numbers; lines with fewer than 12 give none.
pub open spec fn netdev_row(line: Seq<char>) -> Option<(Seq<char>, nat, nat, nat, nat)> {
    match split_once(trim(line), ':') {
        None => None,
        Some((iface, rest)) => {
            let f = numeric_words(words(rest));
            if f.len() >= 12 {
                Some((trim(iface), f[2], f[10], f[3], f[11]))
            } else {
                None
            }
        },
    }
}

/// The value of a `/proc/net/dev` field: its number (fields that do not
/// read count as 0 here).
pub open spec fn field_value(w: Seq<char>) -> nat {
    match parse_unsigned(w, u64::MAX as nat) {
        Some(v) => v,
        None => 0,
    }
}

proof fn lemma_all_numeric(ws: Seq<Seq<char>>)
    requires
        forall|k: int| 0 <= k < ws.len() ==> (#[trigger] parse_unsigned(ws[k], u64::MAX as nat)) is Some,
    ensures
        numeric_words(ws).len() == ws.len(),
        forall|k: int| 0 <= k < ws.len() ==> #[trigger] numeric_words(ws)[k] == field_value(ws[k]),
    decreases ws.len(),
{
    if ws.len() > 0 {
        let d = ws.drop_last();
        assert forall|k: int| 0 <= k < d.len() implies (#[trigger] parse_unsigned(d[k], u64::MAX as nat)) is Some by {
            assert(d[k] == ws[k]);
        }
        lemma_all_numeric(d);
        assert(parse_unsigned(ws[ws.len() - 1], u64::MAX as nat) is Some);
        assert forall|k: int| 0 <= k < ws.len() implies #[trigger] numeric_words(ws)[k] == field_value(ws[k]) by {
            if k < d.len() {
                assert(d[k] == ws[k]);
            }
        }
    }
}

/// The part of a trimmed line before its first colon.
pub open spec fn colon_name(line: Seq<char>) -> Seq<char> {
    match split_once(trim(line), ':') {
        Some((name, _)) => name,
        None => seq![],
    }
}

/// The part of a trimmed line after its first colon.
pub open spec fn colon_rest(line: Seq<char>) -> Seq<char> {
    match split_once(trim(line), ':') {
        Some((_, rest)) => rest,
        None => seq![],
    }
}

/// For an interface line `name: f1 f2 ...` of twelve numeric fields or more
/// after the colon, the counters read are: receive errors the 3rd field,
/// receive drops the 4th, transmit errors the 11th and transmit drops the
/// 12th, under the trimmed name.
pub proof fn law_netdev_line_fields(line: Seq<char>)
    requires
        split_once(trim(line), ':') is Some,
        words(colon_rest(line)).len() >= 12,
        forall|k: int|
            0 <= k < words(colon_rest(line)).len() ==> (#[trigger] parse_unsigned(
                words(colon_rest(line))[k],
                u64::MAX as nat,
            )) is Some,
    ensures
        ({
            let fields = words(colon_rest(line));
            netdev_row(line) matches Some((iface, rx_errs, tx_errs, rx_drops, tx_drops)) && iface == trim(colon_name(line))
                && rx_errs == field_value(fields[2]) && rx_drops == field_value(fields[3]) && tx_errs
                == field_value(fields[10]) && tx_drops == field_value(fields[11])
        }),
{
    lemma_all_numeric(words(colon_rest(line)));
}

/// A line of `/proc/net/dev` past the two header lines that gives a row
/// adds exactly that row, after those of the lines before it; one that gives
/// none adds nothing.
pub proof fn law_netdev_rows_step(ls: Seq<Seq<char>>, n: int)
    requires
        3 <= n <= ls.len(),
    ensures
        netdev_row(ls[n - 1]) matches Some(r) ==> netdev_rows(ls, n) == netdev_rows(ls, n - 1).push(r),
        netdev_row(ls[n - 1]) is None ==> netdev_rows(ls, n) == netdev_rows(ls, n - 1),
        n == 3 ==> netdev_rows(ls, n - 1) == Seq::<(Seq<char>, nat, nat, nat, nat)>::empty(),
{
}

/// The rows of lines `2..n` (the first two lines are headers).
pub open spec fn netdev_rows(ls: Seq<Seq<char>>, n: int) -> Seq<(Seq<char>, nat, nat, nat, nat)>
    decreases n,
{
    if n <= 2 {
        seq![]
    } else {
        match netdev_row(ls[n - 1]) {
            Some(r) => netdev_rows(ls, n - 1).push(r),
            None => netdev_rows(ls, n - 1),
        }
    }
}

/// Reads the per-interface error and drop counters of `/proc/net/dev`.
pub fn parse_netdev_errors(content: &str) -> (r: Vec<NetdevErrors>)
    ensures
        r@.map_values(|e: NetdevErrors| netdev_view(e)) == netdev_rows(
            lines(content@),
            lines(content@).len() as int,
        ),
{
    let cs = chars_of(content);
    let ls = split_lines(cs.as_slice());
    let ghost lv = seqs(ls@);
    let mut out: Vec<NetdevErrors> = Vec::new();
    let mut k: usize = 2;
    if ls.len() < 2 {
        return out;
    }
    while k < ls.len()
        invariant
            2 <= k <= ls.len(),
            lv == seqs(ls@),
            lv == lines(content@),
            out@.map_values(|e: NetdevErrors| netdev_view(e)) == netdev_rows(lv, k as int),
        decreases ls.len() - k,
    {
        assert(ls@[k as int]@ == lv[k as int]);
        let t = trim_chars(ls[k].as_slice());
        let ghost before = out@;
        if let Some((iface, rest)) = split_once_chars(t.as_slice(), ':') {
            let w = split_words(&rest);
            let f = numeric_words_exec(&w);
            if f.len() >= 12 {
                let name = trim_chars(iface.as_slice());
                let e = NetdevErrors {
                    iface: string_from_chars(name.as_slice()),
                    rx_errors: f[2],
                    tx_errors: f[10],
                    rx_drops: f[3],
                    tx_drops: f[11],
                };
                out.push(e);
                assert(out@.map_values(|e: NetdevErrors| netdev_view(e)) =~= before.map_values(
                    |e: NetdevErrors| netdev_view(e),
                ).push(netdev_row(lv[k as int])->0));
            }
        }
        k += 1;
    }
    out
}

/// The capacity assumed for a link whose speed is not known: 1 Gbit/s, in
/// bytes per second.
pub const DEFAULT_LINK_BPS: u64 = 125_000_000;

/// A link's capacity in bytes per second from the text of
/// `/sys/class/net/<name>/speed` (megabits per second): the trimmed number
/// times 125 000, saturating at the largest `u64`; `DEFAULT_LINK_BPS` when
/// the text is not a positive number.
pub open spec fn link_capacity(speed_text: Seq<char>) -> nat {
    match parse_unsigned(trim(speed_text), u64::MAX as nat) {
        Some(mbps) => if mbps == 0 {
            DEFAULT_LINK_BPS as nat
        } else if mbps * 125_000 > u64::MAX {
            u64::MAX as nat
        } else {
            mbps * 125_000
        },
        None => DEFAULT_LINK_BPS as nat,
    }
}

/// A link's capacity in bytes per second (see `link_capacity`).
pub fn interface_max_bps(speed_text: &str) -> (r: u64)
    ensures
        r as nat == link_capacity(speed_text@),
{
    let t = trim_chars(chars_of(speed_text).as_slice());
    match parse_u64(t.as_slice()) {
        Some(mbps) => if mbps == 0 {
            DEFAULT_LINK_BPS
        } else if mbps > u64::MAX / 125_000 {
            u64::MAX
        } else {
            mbps * 125_000
        },
        None => DEFAULT_LINK_BPS,
    }
}

/// An interface named `name` is listed as loopback.
pub open spec fn listed_as_loopback(nics: Seq<NetworkInterface>, name: Seq<char>) -> bool {
    exists|j: int| 0 <= j < nics.len() && nics[j].is_loopback && #[trigger] nics[j].name@ == name
}

/// Which of the measured interfaces count toward the total of all
/// interfaces: every one but those listed as loopback.
pub fn counted_in_total(names: &Vec<String>, nics: &Vec<NetworkInterface>) -> (r: Vec<bool>)
    ensures
        r@.len() == names@.len(),
        forall|i: int| 0 <= i < names@.len() ==> r@[i] == !listed_as_loopback(nics@, #[trigger] names@[i]@),
{
    let mut r: Vec<bool> = Vec::new();
    let mut i: usize = 0;
    while i < names.len()
        invariant
            i <= names@.len(),
            r@.len() == i,
            forall|k: int| 0 <= k < i ==> r@[k] == !listed_as_loopback(nics@, #[trigger] names@[k]@),
        decreases names.len() - i,
    {
        let n = chars_of(names[i].as_str());
        let mut found = false;
        let mut j: usize = 0;
        while j < nics.len()
            invariant
                j <= nics@.len(),
                n@ == names@[i as int]@,
                found <==> exists|q: int| 0 <= q < j && nics@[q].is_loopback && #[trigger] nics@[q].name@ == n@,
            decreases nics.len() - j,
        {
            if nics[j].is_loopback && chars_eq(chars_of(nics[j].name.as_str()).as_slice(), n.as_slice()) {
                found = true;
            }
            j += 1;
        }
        r.push(!found);
        i += 1;
    }
    r
}

} // verus!
