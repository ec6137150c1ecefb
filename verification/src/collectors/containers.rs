//! Container listing helpers: the lifecycle state that the engine's state
//! and status texts describe, and the display name of a container.
use vstd::prelude::*;
use crate::models::ContainerStatus;
use crate::collectors::ports::{arrow, container_port, host_port, parse_port};
use crate::text::{
    after_last, all_digits, append_chars, before_first, chars_of, contains, contains_chars, find_from, is_digit,
    lemma_find_first, lemma_find_none,
    is_ws, last_index_before, lowercase, occurs_at, second_piece, string_from_chars, to_lowercase, trim,
    trim_end, trim_start,
};

verus! {

/// Whether the container engine can be reached, and why not.
#[derive(Clone, Debug, Default)]
pub struct ContainerBackendState {
    pub available: bool,
    pub message: Option<String>,
}

/// The state that a lowercase `"<state> <status>"` text describes: the first
/// of running, paused, restarting, exited and dead that it mentions.
pub open spec fn status_in_text(v: Seq<char>) -> ContainerStatus {
    if contains(v, "running"@) {
        ContainerStatus::Running
    } else if contains(v, "paused"@) {
        ContainerStatus::Paused
    } else if contains(v, "restarting"@) {
        ContainerStatus::Restarting
    } else if contains(v, "exited"@) {
        ContainerStatus::Exited
    } else if contains(v, "dead"@) {
        ContainerStatus::Dead
    } else {
        ContainerStatus::Unknown
    }
}

/// How a state text classifies: any mention of `running` makes it Running;
/// otherwise `paused` makes it Paused; otherwise `restarting` makes it
/// Restarting; otherwise `exited` makes it Exited; otherwise `dead` makes it
/// Dead; a text that mentions none of them is Unknown. In particular the
/// classes are told apart: a restarting container is never reported as
/// exited or dead.
pub proof fn law_status_classes(v: Seq<char>)
    ensures
        contains(v, "running"@) ==> status_in_text(v) == ContainerStatus::Running,
        !contains(v, "running"@) && contains(v, "paused"@) ==> status_in_text(v) == ContainerStatus::Paused,
        !contains(v, "running"@) && !contains(v, "paused"@) && contains(v, "restarting"@) ==> status_in_text(v)
            == ContainerStatus::Restarting,
        !contains(v, "running"@) && !contains(v, "paused"@) && !contains(v, "restarting"@) && contains(
            v,
            "exited"@,
        ) ==> status_in_text(v) == ContainerStatus::Exited,
        !contains(v, "running"@) && !contains(v, "paused"@) && !contains(v, "restarting"@) && !contains(
            v,
            "exited"@,
        ) && contains(v, "dead"@) ==> status_in_text(v) == ContainerStatus::Dead,
        !contains(v, "running"@) && !contains(v, "paused"@) && !contains(v, "restarting"@) && !contains(
            v,
            "exited"@,
        ) && !contains(v, "dead"@) ==> status_in_text(v) == ContainerStatus::Unknown,
        status_in_text(v) == ContainerStatus::Running <==> contains(v, "running"@),
        status_in_text(v) == ContainerStatus::Restarting <==> (!contains(v, "running"@) && !contains(v, "paused"@)
            && contains(v, "restarting"@)),
{
}

/// What `map_status` reports for an engine's `state` and `status` texts is
/// the class of their lowercase forms joined by a space (see
/// `law_status_classes`): a restarting container whose texts mention neither
/// running nor paused is Restarting.
pub proof fn law_map_status_restarting(state: Seq<char>, status: Seq<char>)
    requires
        contains(status_text(state, status), "restarting"@),
        !contains(status_text(state, status), "running"@),
        !contains(status_text(state, status), "paused"@),
    ensures
        status_in_text(status_text(state, status)) == ContainerStatus::Restarting,
{
    law_status_classes(status_text(state, status));
}

/// Classifies a lowercase state text.
pub fn status_from_text(value: &str) -> (r: ContainerStatus)
    ensures
        r == status_in_text(value@),
{
    let v = chars_of(value);
    if contains_chars(v.as_slice(), chars_of("running").as_slice()) {
        ContainerStatus::Running
    } else if contains_chars(v.as_slice(), chars_of("paused").as_slice()) {
        ContainerStatus::Paused
    } else if contains_chars(v.as_slice(), chars_of("restarting").as_slice()) {
        ContainerStatus::Restarting
    } else if contains_chars(v.as_slice(), chars_of("exited").as_slice()) {
        ContainerStatus::Exited
    } else if contains_chars(v.as_slice(), chars_of("dead").as_slice()) {
        ContainerStatus::Dead
    } else {
        ContainerStatus::Unknown
    }
}

/// The text that `map_status` classifies: both texts in lower case,
/// separated by a space.
pub open spec fn status_text(state: Seq<char>, status: Seq<char>) -> Seq<char> {
    lowercase(state) + seq![' '] + lowercase(status)
}

/// The lifecycle state that the engine's `state` and `status` texts describe.
pub fn map_status(state: &str, status: &str) -> (r: ContainerStatus)
    ensures
        r == status_in_text(status_text(state@, status@)),
{
    let a = to_lowercase(state);
    let b = to_lowercase(status);
    let mut v = chars_of(a.as_str());
    v.push(' ');
    let bc = chars_of(b.as_str());
    let mut k: usize = 0;
    let ghost start = v@;
    while k < bc.len()
        invariant
            k <= bc.len(),
            v@ == start + bc@.take(k as int),
        decreases bc.len() - k,
    {
        v.push(bc[k]);
        k += 1;
        assert(v@ =~= start + bc@.take(k as int));
    }
    assert(bc@.take(bc.len() as int) =~= bc@);
    assert(v@ =~= status_text(state@, status@));
    let text = string_from_chars(v.as_slice());
    status_from_text(text.as_str())
}

/// `s` without its leading `c` characters.
pub open spec fn trim_start_char(s: Seq<char>, c: char) -> Seq<char>
    decreases s.len(),
{
    if s.len() > 0 && s[0] == c {
        trim_start_char(s.drop_first(), c)
    } else {
        s
    }
}

/// The display name of a container: its first name without leading `/`.
pub fn display_name(name: &str) -> (r: String)
    ensures
        r@ == trim_start_char(name@, '/'),
{
    let cs = chars_of(name);
    let mut i: usize = 0;
    assert(name@.skip(0) =~= name@);
    while i < cs.len() && cs[i] == '/'
        invariant
            i <= cs.len(),
            cs@ == name@,
            trim_start_char(name@, '/') == trim_start_char(name@.skip(i as int), '/'),
        decreases cs.len() - i,
    {
        assert(name@.skip(i as int).drop_first() =~= name@.skip(i + 1));
        i += 1;
    }
    let rest = crate::text::slice_chars(cs.as_slice(), i, cs.len());
    assert(rest@ =~= name@.skip(i as int));
    string_from_chars(rest.as_slice())
}

pub open spec fn or_text(o: Option<&str>, default: Seq<char>) -> Seq<char> {
    match o {
        Some(s) => s@,
        None => default,
    }
}

/// How a published port is listed: `host_ip:host_port->container_port`,
/// with `0.0.0.0` and `?` for a missing address or port.
pub open spec fn binding_text(host_ip: Option<&str>, host_port: Option<&str>, container_port: Seq<char>) -> Seq<char> {
    or_text(host_ip, "0.0.0.0"@) + ":"@ + or_text(host_port, "?"@) + "->"@ + container_port
}

/// Lists one host binding of a container port.
pub fn port_binding_text(host_ip: Option<&str>, host_port: Option<&str>, container_port: &str) -> (r: String)
    ensures
        r@ == binding_text(host_ip, host_port, container_port@),
{
    let mut out = match host_ip {
        Some(ip) => chars_of(ip),
        None => chars_of("0.0.0.0"),
    };
    append_chars(&mut out, chars_of(":").as_slice());
    match host_port {
        Some(p) => append_chars(&mut out, chars_of(p).as_slice()),
        None => append_chars(&mut out, chars_of("?").as_slice()),
    }
    append_chars(&mut out, chars_of("->").as_slice());
    append_chars(&mut out, chars_of(container_port).as_slice());
    string_from_chars(out.as_slice())
}

/// How a mount is listed: `source:destination (rw)`, or `(ro)` when it is
/// read-only; `?` for a missing path.
pub open spec fn volume_text(source: Option<&str>, destination: Option<&str>, rw: Option<bool>) -> Seq<char> {
    or_text(source, "?"@) + ":"@ + or_text(destination, "?"@) + " ("@ + (if rw != Some(false) {
        "rw"@
    } else {
        "ro"@
    }) + ")"@
}

/// Lists one mount of a container.
pub fn mount_text(source: Option<&str>, destination: Option<&str>, rw: Option<bool>) -> (r: String)
    ensures
        r@ == volume_text(source, destination, rw),
{
    let mut out = match source {
        Some(s) => chars_of(s),
        None => chars_of("?"),
    };
    append_chars(&mut out, chars_of(":").as_slice());
    match destination {
        Some(d) => append_chars(&mut out, chars_of(d).as_slice()),
        None => append_chars(&mut out, chars_of("?").as_slice()),
    }
    append_chars(&mut out, chars_of(" (").as_slice());
    let writable = match rw {
        Some(false) => false,
        _ => true,
    };
    if writable {
        append_chars(&mut out, chars_of("rw").as_slice());
    } else {
        append_chars(&mut out, chars_of("ro").as_slice());
    }
    append_chars(&mut out, chars_of(")").as_slice());
    string_from_chars(out.as_slice())
}

/// How a network a container is attached to is listed: `name (ip)`, with
/// `—` for a missing address.
pub open spec fn network_text(name: Seq<char>, ip: Option<&str>) -> Seq<char> {
    name + " ("@ + or_text(ip, "—"@) + ")"@
}

/// Lists one network of a container.
pub fn network_label(name: &str, ip: Option<&str>) -> (r: String)
    ensures
        r@ == network_text(name@, ip),
{
    let mut out = chars_of(name);
    append_chars(&mut out, chars_of(" (").as_slice());
    match ip {
        Some(a) => append_chars(&mut out, chars_of(a).as_slice()),
        None => append_chars(&mut out, chars_of("—").as_slice()),
    }
    append_chars(&mut out, chars_of(")").as_slice());
    string_from_chars(out.as_slice())
}

proof fn lemma_last_index(s: Seq<char>, c: char, end: int, k: int)
    requires
        0 <= k < end <= s.len(),
        s[k] == c,
        forall|j: int| k < j < end ==> s[j] != c,
    ensures
        last_index_before(s, c, end) == Some(k),
    decreases end,
{
    if end - 1 > k {
        lemma_last_index(s, c, end - 1, k);
    }
}

proof fn lemma_digits_trimmed(d: Seq<char>)
    requires
        d.len() > 0,
        all_digits(d),
    ensures
        trim(d) == d,
{
    assert(is_digit(d[0]));
    assert(is_digit(d.last()));
    assert(!is_ws(d[0]));
    assert(!is_ws(d.last()));
    assert(trim_start(d) == d);
}

/// The port lister and the port readers agree: for a binding whose address
/// holds neither `:` nor `-` and whose host port is written in digits, the
/// host port read back from the listed text is the number those digits
/// denote, and, when the container port text holds no `-`, the container
/// port read back is the number before its `/`.
pub proof fn law_binding_text_reads_back(ip: &str, port: &str, cport: Seq<char>)
    requires
        forall|i: int| 0 <= i < ip@.len() ==> ip@[i] != ':' && ip@[i] != '-',
        port@.len() > 0,
        all_digits(port@),
        forall|i: int| 0 <= i < cport.len() ==> cport[i] != '-',
    ensures
        host_port(binding_text(Some(ip), Some(port), cport)) == parse_port(port@),
        container_port(binding_text(Some(ip), Some(port), cport)) == parse_port(
            trim(before_first(cport, seq!['/'])),
        ),
{
    reveal_strlit(":");
    reveal_strlit("->");
    let t = binding_text(Some(ip), Some(port), cport);
    let a = ip@;
    let d = port@;
    let head = a + ":"@ + d;
    let pos = head.len() as int;
    assert(t =~= head + arrow() + cport);
    assert forall|j: int| 0 <= j < pos implies t[j] != '-' by {
        if j < a.len() {
            assert(t[j] == a[j]);
        } else if j == a.len() {
            assert(t[j] == ':');
        } else {
            assert(t[j] == d[j - a.len() - 1]);
            assert(is_digit(d[j - a.len() - 1]));
        }
    }
    assert forall|j: int| 0 <= j < pos implies !occurs_at(t, arrow(), j) by {
        if occurs_at(t, arrow(), j) {
            assert(t.subrange(j, j + 2)[0] == t[j]);
        }
    }
    assert(t.subrange(pos, pos + 2) =~= arrow());
    lemma_find_first(t, arrow(), 0, pos);
    assert(before_first(t, arrow()) =~= head);
    assert forall|j: int| a.len() < j < head.len() implies head[j] != ':' by {
        assert(head[j] == d[j - a.len() - 1]);
        assert(is_digit(d[j - a.len() - 1]));
    }
    assert(head[a.len() as int] == ':');
    lemma_last_index(head, ':', head.len() as int, a.len() as int);
    assert(after_last(head, ':') =~= d);
    lemma_digits_trimmed(d);
    let jj = pos + 2;
    assert forall|j: int| jj <= j implies !occurs_at(t, arrow(), j) by {
        if occurs_at(t, arrow(), j) {
            assert(t.subrange(j, j + 2)[0] == t[j]);
            assert(t[j] == cport[j - jj]);
        }
    }
    lemma_find_none(t, arrow(), jj);
    assert(t.skip(jj) =~= cport);
}


/// One block-I/O counter of a statistics reading: the operation it counts
/// and its bytes.
pub struct BlkioEntry {
    pub op: String,
    pub value: u64,
}

/// What one statistics reading of a container reports, as whole numbers.
pub struct ContainerReading {
    pub cpu_total: u64,
    pub system_cpu: Option<u64>,
    pub memory_usage: Option<u64>,
    pub memory_limit: Option<u64>,
    /// Bytes received and sent on each of the container's networks.
    pub networks: Vec<(u64, u64)>,
    pub blkio: Option<Vec<BlkioEntry>>,
}

/// The memory in use and its limit, and the cumulative counters kept from
/// one reading to the next.
#[derive(Clone, Copy, Debug, PartialEq, Eq, Structural)]
pub struct ContainerTotals {
    pub memory_bytes: u64,
    pub memory_limit_bytes: u64,
    pub cpu_total: u64,
    pub system_cpu: u64,
    pub net_recv: u64,
    pub net_sent: u64,
    pub blk_read: u64,
    pub blk_write: u64,
}

/// How far each counter moved since the previous reading; a counter that
/// went back counts as not having moved.
#[derive(Clone, Copy, Debug, PartialEq, Eq, Structural)]
pub struct ContainerDeltas {
    pub cpu: u64,
    pub system_cpu: u64,
    pub net_recv: u64,
    pub net_sent: u64,
    pub blk_read: u64,
    pub blk_write: u64,
}

/// The code of `c` with ASCII capitals turned into small letters.
pub open spec fn ascii_lower_code(c: char) -> u32 {
    if 65 <= (c as u32) <= 90 {
        ((c as u32) + 32) as u32
    } else {
        c as u32
    }
}

/// `str::eq_ignore_ascii_case`.
pub open spec fn eq_ignore_ascii_case(a: Seq<char>, b: Seq<char>) -> bool {
    a.len() == b.len() && forall|i: int| 0 <= i < a.len() ==> ascii_lower_code(#[trigger] a[i]) == ascii_lower_code(b[i])
}

fn ascii_lower_code_exec(c: char) -> (r: u32)
    ensures
        r == ascii_lower_code(c),
{
    let n = c as u32;
    if 65 <= n && n <= 90 {
        n + 32
    } else {
        n
    }
}

pub fn eq_ignore_ascii_case_exec(a: &[char], b: &[char]) -> (r: bool)
    ensures
        r == eq_ignore_ascii_case(a@, b@),
{
    if a.len() != b.len() {
        return false;
    }
    let mut i: usize = 0;
    while i < a.len()
        invariant
            i <= a.len(),
            a.len() == b.len(),
            forall|k: int| 0 <= k < i ==> ascii_lower_code(#[trigger] a@[k]) == ascii_lower_code(b@[k]),
        decreases a.len() - i,
    {
        if ascii_lower_code_exec(a[i]) != ascii_lower_code_exec(b[i]) {
            return false;
        }
        i += 1;
    }
    true
}

/// A sum, held at the largest `u64` when it does not fit.
pub open spec fn capped(x: int) -> u64 {
    if x > u64::MAX {
        u64::MAX
    } else if x < 0 {
        0
    } else {
        x as u64
    }
}

/// The bytes of the block-I/O counters whose operation is `op`, ignoring
/// letter case.
pub open spec fn blkio_sum(es: Seq<BlkioEntry>, op: Seq<char>) -> int
    decreases es.len(),
{
    if es.len() == 0 {
        0
    } else {
        blkio_sum(es.drop_last(), op) + if eq_ignore_ascii_case(es.last().op@, op) {
            es.last().value as int
        } else {
            0
        }
    }
}

pub open spec fn rx_sum(ns: Seq<(u64, u64)>) -> int
    decreases ns.len(),
{
    if ns.len() == 0 {
        0
    } else {
        rx_sum(ns.drop_last()) + ns.last().0
    }
}

pub open spec fn tx_sum(ns: Seq<(u64, u64)>) -> int
    decreases ns.len(),
{
    if ns.len() == 0 {
        0
    } else {
        tx_sum(ns.drop_last()) + ns.last().1
    }
}

proof fn lemma_sums_nonneg(es: Seq<BlkioEntry>, op: Seq<char>, ns: Seq<(u64, u64)>)
    ensures
        blkio_sum(es, op) >= 0,
        rx_sum(ns) >= 0,
        tx_sum(ns) >= 0,
    decreases es.len() + ns.len(),
{
    if es.len() > 0 {
        lemma_sums_nonneg(es.drop_last(), op, ns);
    } else if ns.len() > 0 {
        lemma_sums_nonneg(es, op, ns.drop_last());
    }
}

/// The bytes counted for operation `op` ("Read" or "Write").
fn sum_blkio(es: &Vec<BlkioEntry>, op: &str) -> (r: u64)
    ensures
        r == capped(blkio_sum(es@, op@)),
{
    let opc = chars_of(op);
    let mut total: u64 = 0;
    let mut i: usize = 0;
    while i < es.len()
        invariant
            i <= es@.len(),
            opc@ == op@,
            total == capped(blkio_sum(es@.take(i as int), op@)),
        decreases es.len() - i,
    {
        proof {
            assert(es@.take(i + 1).drop_last() =~= es@.take(i as int));
            lemma_sums_nonneg(es@.take(i as int), op@, Seq::empty());
        }
        let e = &es[i];
        let oc = chars_of(e.op.as_str());
        if eq_ignore_ascii_case_exec(oc.as_slice(), opc.as_slice()) {
            total = total.saturating_add(e.value);
        }
        i += 1;
    }
    assert(es@.take(i as int) =~= es@);
    total
}

/// The figures of a reading: memory in use and its limit, CPU time and
/// system CPU time (each 0 when not reported), bytes over all networks, and
/// block-I/O bytes read and written (0 when not reported); sums are held at
/// the largest `u64`.
pub fn reading_totals(r: &ContainerReading) -> (t: ContainerTotals)
    ensures
        t == (ContainerTotals {
            memory_bytes: match r.memory_usage {
                Some(v) => v,
                None => 0,
            },
            memory_limit_bytes: match r.memory_limit {
                Some(v) => v,
                None => 0,
            },
            cpu_total: r.cpu_total,
            system_cpu: match r.system_cpu {
                Some(v) => v,
                None => 0,
            },
            net_recv: capped(rx_sum(r.networks@)),
            net_sent: capped(tx_sum(r.networks@)),
            blk_read: match &r.blkio {
                Some(es) => capped(blkio_sum(es@, "Read"@)),
                None => 0,
            },
            blk_write: match &r.blkio {
                Some(es) => capped(blkio_sum(es@, "Write"@)),
                None => 0,
            },
        }),
{
    let mut rx: u64 = 0;
    let mut tx: u64 = 0;
    let mut i: usize = 0;
    while i < r.networks.len()
        invariant
            i <= r.networks@.len(),
            rx == capped(rx_sum(r.networks@.take(i as int))),
            tx == capped(tx_sum(r.networks@.take(i as int))),
        decreases r.networks.len() - i,
    {
        proof {
            assert(r.networks@.take(i + 1).drop_last() =~= r.networks@.take(i as int));
            lemma_sums_nonneg(Seq::empty(), Seq::empty(), r.networks@.take(i as int));
        }
        let (a, b) = r.networks[i];
        rx = rx.saturating_add(a);
        tx = tx.saturating_add(b);
        i += 1;
    }
    assert(r.networks@.take(i as int) =~= r.networks@);
    let (blk_read, blk_write) = match &r.blkio {
        Some(es) => (sum_blkio(es, "Read"), sum_blkio(es, "Write")),
        None => (0, 0),
    };
    ContainerTotals {
        memory_bytes: match r.memory_usage {
            Some(v) => v,
            None => 0,
        },
        memory_limit_bytes: match r.memory_limit {
            Some(v) => v,
            None => 0,
        },
        cpu_total: r.cpu_total,
        system_cpu: match r.system_cpu {
            Some(v) => v,
            None => 0,
        },
        net_recv: rx,
        net_sent: tx,
        blk_read,
        blk_write,
    }
}

/// How far each counter moved from `prev` to `cur`; `None` on the first
/// reading of a container, when there is nothing to compare with.
pub fn counter_deltas(prev: Option<&ContainerTotals>, cur: &ContainerTotals) -> (d: Option<ContainerDeltas>)
    ensures
        prev is None ==> d is None,
        prev matches Some(p) ==> d == Some(
            ContainerDeltas {
                cpu: cur.cpu_total.saturating_sub(p.cpu_total),
                system_cpu: cur.system_cpu.saturating_sub(p.system_cpu),
                net_recv: cur.net_recv.saturating_sub(p.net_recv),
                net_sent: cur.net_sent.saturating_sub(p.net_sent),
                blk_read: cur.blk_read.saturating_sub(p.blk_read),
                blk_write: cur.blk_write.saturating_sub(p.blk_write),
            },
        ),
{
    match prev {
        None => None,
        Some(p) => Some(
            ContainerDeltas {
                cpu: cur.cpu_total.saturating_sub(p.cpu_total),
                system_cpu: cur.system_cpu.saturating_sub(p.system_cpu),
                net_recv: cur.net_recv.saturating_sub(p.net_recv),
                net_sent: cur.net_sent.saturating_sub(p.net_sent),
                blk_read: cur.blk_read.saturating_sub(p.blk_read),
                blk_write: cur.blk_write.saturating_sub(p.blk_write),
            },
        ),
    }
}

} // verus!
