//! Node.js inspector client logic: the WebSocket URL of an inspector target,
//! a minimal URL reader, and WebSocket text framing.
use vstd::prelude::*;
use crate::text::{
    split_once, split_once_chars,
    strip_prefix, strip_prefix_chars,
    after_last, chars_of, find_chars, find_from, lemma_find_from_bounds, occurs_at, parse_u16,
    parse_unsigned, slice_chars, starts_with, starts_with_chars, contains, contains_chars,
    before_first, before_first_chars, string_from_chars, append_chars, split_on, split_on_char, seqs,
    lemma_find_first, lemma_find_minimal, lemma_find_none,
};
use crate::collectors::database::opt_view;
use crate::collectors::ports::chars_eq;
use crate::ui::history::{bounded_push, push_capped};
use std::collections::VecDeque;

verus! {

/// How many samples each Node.js metric history keeps.
pub const NODE_HISTORY_LEN: usize = 60;

/// The Node.js panel's histories: event-loop utilisation in whole percent
/// and heap in use in KiB, each keeping the last `NODE_HISTORY_LEN` samples.
pub struct NodeHistory {
    pub elu_pct: VecDeque<u64>,
    pub heap_used_kib: VecDeque<u64>,
}

impl NodeHistory {
    pub open spec fn wf(&self) -> bool {
        &&& self.elu_pct@.len() <= NODE_HISTORY_LEN
        &&& self.heap_used_kib@.len() <= NODE_HISTORY_LEN
    }

    /// Empty histories.
    pub fn new() -> (h: Self)
        ensures
            h.wf(),
            h.elu_pct@ == Seq::<u64>::empty(),
            h.heap_used_kib@ == Seq::<u64>::empty(),
    {
        NodeHistory { elu_pct: VecDeque::new(), heap_used_kib: VecDeque::new() }
    }

    /// Records one poll: the utilisation as given, the heap in use in whole
    /// KiB; the oldest sample of each goes once a history is full.
    pub fn push_sample(&mut self, elu_pct: u64, heap_used_bytes: u64)
        requires
            old(self).wf(),
        ensures
            final(self).wf(),
            final(self).elu_pct@ == bounded_push(old(self).elu_pct@, elu_pct, NODE_HISTORY_LEN as nat),
            final(self).heap_used_kib@ == bounded_push(
                old(self).heap_used_kib@,
                heap_used_bytes / 1024,
                NODE_HISTORY_LEN as nat,
            ),
    {
        push_capped(&mut self.elu_pct, elu_pct, NODE_HISTORY_LEN);
        push_capped(&mut self.heap_used_kib, heap_used_bytes / 1024, NODE_HISTORY_LEN);
    }
}

/// Libuv I/O subsystem counters.
#[derive(Clone, Copy, Debug, Default)]
pub struct LibuvMetrics {
    pub active_handles: u32,
    pub active_requests: u32,
    pub threadpool_queue: u32,
}

/// State of the connection to a Node.js inspector.
#[derive(Clone, Copy, Debug, PartialEq, Eq, Structural, Default)]
pub enum NodeConnectionStatus {
    #[default]
    Disconnected,
    Connecting,
    Connected,
    Unavailable,
}

// ───────────────────────── decimal text ─────────────────────────

pub open spec fn digit_char(d: nat) -> char {
    (48 + d) as char
}

/// The decimal text of `n`, as `{}` prints an unsigned integer.
pub open spec fn decimal(n: nat) -> Seq<char>
    decreases n,
{
    if n < 10 {
        seq![digit_char(n)]
    } else {
        decimal(n / 10).push(digit_char(n % 10))
    }
}

/// The decimal text of `n`.
pub fn decimal_chars(n: u64) -> (r: Vec<char>)
    ensures
        r@ == decimal(n as nat),
    decreases n,
{
    if n < 10 {
        let c = (48 + n as u32) as u8 as char;
        let r = vec![c];
        assert(r@ =~= seq![digit_char(n as nat)]);
        r
    } else {
        let mut r = decimal_chars(n / 10);
        let c = (48 + (n % 10) as u32) as u8 as char;
        assert(c == digit_char((n % 10) as nat));
        r.push(c);
        r
    }
}

// ───────────────────────── URLs ─────────────────────────

/// The URL without a leading `ws://` or `wss://`.
pub open spec fn ws_without_scheme(url: Seq<char>) -> Seq<char> {
    match strip_prefix(url, "ws://"@) {
        Some(r) => r,
        None => match strip_prefix(url, "wss://"@) {
            Some(r) => r,
            None => url,
        },
    }
}

pub open spec fn ws_scheme(url: Seq<char>) -> Seq<char> {
    if starts_with(url, "wss://"@) {
        "wss"@
    } else {
        "ws"@
    }
}

/// The WebSocket URL with an explicit port: unchanged when its host part
/// (before the first `/` after the scheme) names a port, otherwise with
/// `:fallback_port` inserted after the host.
pub open spec fn normalized_ws_url(url: Seq<char>, fallback_port: u16) -> Seq<char> {
    let w = ws_without_scheme(url);
    if contains(before_first(w, seq!['/']), seq![':']) {
        url
    } else {
        match find_from(w, seq!['/'], 0) {
            Some(i) => ws_scheme(url) + "://"@ + w.take(i) + seq![':'] + decimal(
                fallback_port as nat,
            ) + w.skip(i),
            None => ws_scheme(url) + "://"@ + w + seq![':'] + decimal(fallback_port as nat),
        }
    }
}

proof fn lemma_decimal_digits(n: nat)
    ensures
        decimal(n).len() > 0,
        forall|i: int| 0 <= i < decimal(n).len() ==> 48 <= (#[trigger] decimal(n)[i] as u32) <= 57,
    decreases n,
{
    if n >= 10 {
        lemma_decimal_digits(n / 10);
        let p = decimal(n / 10);
        assert forall|i: int| 0 <= i < decimal(n).len() implies 48 <= (#[trigger] decimal(n)[i] as u32) <= 57 by {
            if i < p.len() {
                assert(decimal(n)[i] == p[i]);
            }
        }
    }
}

/// `:` somewhere in `s` makes `contains(s, ":")` true.
proof fn lemma_colon_found(s: Seq<char>, k: int)
    requires
        0 <= k < s.len(),
        s[k] == ':',
    ensures
        contains(s, seq![':']),
{
    assert(occurs_at(s, seq![':'], k)) by {
        assert(s.subrange(k, k + 1) =~= seq![':']);
    }
    lemma_find_minimal(s, seq![':'], 0);
    if find_from(s, seq![':'], 0) is None {
        lemma_find_from_bounds(s, seq![':'], 0);
    }
}

/// No `/` among the first `n` characters: the first `/` is not before `n`.
proof fn lemma_no_slash_before(s: Seq<char>, n: int)
    requires
        0 <= n <= s.len(),
        forall|k: int| 0 <= k < n ==> s[k] != '/',
    ensures
        forall|k: int| 0 <= k < n ==> !occurs_at(s, seq!['/'], k),
{
    assert forall|k: int| 0 <= k < n implies !occurs_at(s, seq!['/'], k) by {
        if occurs_at(s, seq!['/'], k) {
            assert(s.subrange(k, k + 1)[0] == s[k]);
        }
    }
}

/// A normalized URL names its port, and normalizing it again changes
/// nothing, whatever fallback port is given the second time.
pub proof fn law_normalize_ws_url(url: Seq<char>, port: u16, other: u16)
    ensures
        contains(before_first(ws_without_scheme(normalized_ws_url(url, port)), seq!['/']), seq![':']),
        normalized_ws_url(normalized_ws_url(url, port), other) == normalized_ws_url(url, port),
{
    reveal_strlit("ws://");
    reveal_strlit("wss://");
    reveal_strlit("://");
    reveal_strlit("ws");
    reveal_strlit("wss");
    let w = ws_without_scheme(url);
    if !contains(before_first(w, seq!['/']), seq![':']) {
        let dec = decimal(port as nat);
        lemma_decimal_digits(port as nat);
        let scheme = ws_scheme(url);
        let rest = match find_from(w, seq!['/'], 0) {
            Some(i) => w.take(i) + seq![':'] + dec + w.skip(i),
            None => w + seq![':'] + dec,
        };
        let r = normalized_ws_url(url, port);
        assert(r =~= scheme + "://"@ + rest);
        if scheme == "ws"@ {
            assert(starts_with(r, "ws://"@)) by {
                assert(r.subrange(0, 5) =~= "ws://"@);
            }
            assert(strip_prefix(r, "ws://"@) == Some(r.skip(5)));
            assert(r.skip(5) =~= rest);
            assert(!starts_with(r, "wss://"@)) by {
                if starts_with(r, "wss://"@) {
                    assert(r.subrange(0, 6)[2] == r[2]);
                }
            }
        } else {
            assert(starts_with(r, "wss://"@)) by {
                assert(r.subrange(0, 6) =~= "wss://"@);
            }
            assert(!starts_with(r, "ws://"@)) by {
                if starts_with(r, "ws://"@) {
                    assert(r.subrange(0, 5)[2] == r[2]);
                }
            }
            assert(r.skip(6) =~= rest);
        }
        assert(ws_without_scheme(r) == rest);
        assert(ws_scheme(r) == scheme);
        match find_from(w, seq!['/'], 0) {
            Some(i) => {
                lemma_find_minimal(w, seq!['/'], 0);
                lemma_find_from_bounds(w, seq!['/'], 0);
                let head = w.take(i) + seq![':'] + dec;
                let pos = head.len() as int;
                assert forall|k: int| 0 <= k < pos implies rest[k] != '/' by {
                    if k < i {
                        assert(rest[k] == w[k]);
                        if w[k] == '/' {
                            assert(occurs_at(w, seq!['/'], k)) by {
                                assert(w.subrange(k, k + 1) =~= seq!['/']);
                            }
                        }
                    } else if k == i {
                        assert(rest[k] == ':');
                    } else {
                        assert(rest[k] == dec[k - i - 1]);
                    }
                }
                lemma_no_slash_before(rest, pos);
                assert(w.subrange(i, i + 1) =~= seq!['/']);
                assert(rest.subrange(pos, pos + 1) =~= seq!['/']) by {
                    assert(rest[pos] == w[i]);
                }
                lemma_find_first(rest, seq!['/'], 0, pos);
                assert(before_first(rest, seq!['/']) =~= head);
                assert(head[i] == ':');
                lemma_colon_found(head, i);
            },
            None => {
                lemma_find_from_bounds(w, seq!['/'], 0);
                assert forall|k: int| 0 <= k < rest.len() implies rest[k] != '/' by {
                    if k < w.len() {
                        assert(rest[k] == w[k]);
                        if w[k] == '/' {
                            assert(occurs_at(w, seq!['/'], k)) by {
                                assert(w.subrange(k, k + 1) =~= seq!['/']);
                            }
                        }
                    } else if k == w.len() {
                        assert(rest[k] == ':');
                    } else {
                        assert(rest[k] == dec[k - w.len() - 1]);
                    }
                }
                lemma_no_slash_before(rest, rest.len() as int);
                assert forall|k: int| 0 <= k implies !occurs_at(rest, seq!['/'], k) by {
                    if k >= rest.len() {
                    }
                }
                lemma_find_none(rest, seq!['/'], 0);
                assert(before_first(rest, seq!['/']) == rest);
                lemma_colon_found(rest, w.len() as int);
            },
        }
    }
}

/// Makes sure a WebSocket URL names its port: `ws://127.0.0.1/abc` becomes
/// `ws://127.0.0.1:9229/abc` for fallback port 9229; a URL whose host
/// already names a port is returned as it is.
pub fn normalize_ws_url(url: &str, fallback_port: u16) -> (r: String)
    ensures
        r@ == normalized_ws_url(url@, fallback_port),
{
    let u = chars_of(url);
    let ws = chars_of("ws://");
    let wss = chars_of("wss://");
    let w = match strip_prefix_chars(u.as_slice(), ws.as_slice()) {
        Some(r) => r,
        None => match strip_prefix_chars(u.as_slice(), wss.as_slice()) {
            Some(r) => r,
            None => u.clone(),
        },
    };
    assert(w@ == ws_without_scheme(url@));
    let slash = vec!['/'];
    assert(slash@ =~= seq!['/']);
    let colon = vec![':'];
    assert(colon@ =~= seq![':']);
    let host_part = before_first_chars(w.as_slice(), slash.as_slice());
    if contains_chars(host_part.as_slice(), colon.as_slice()) {
        return url.to_owned();
    }
    let mut out = if starts_with_chars(u.as_slice(), wss.as_slice()) {
        chars_of("wss")
    } else {
        chars_of("ws")
    };
    let sep = chars_of("://");
    append_chars(&mut out, sep.as_slice());
    let port = decimal_chars(fallback_port as u64);
    match find_chars(w.as_slice(), slash.as_slice(), 0) {
        Some(i) => {
            let host = slice_chars(w.as_slice(), 0, i);
            let path = slice_chars(w.as_slice(), i, w.len());
            assert(host@ =~= w@.take(i as int));
            assert(path@ =~= w@.skip(i as int));
            append_chars(&mut out, host.as_slice());
            out.push(':');
            append_chars(&mut out, port.as_slice());
            append_chars(&mut out, path.as_slice());
        },
        None => {
            append_chars(&mut out, w.as_slice());
            out.push(':');
            append_chars(&mut out, port.as_slice());
        },
    }
    string_from_chars(out.as_slice())
}

/// The parts of a URL that the inspector client needs.
pub struct SimpleUrl {
    pub host: String,
    pub port: u16,
    pub path: String,
    pub query: Option<String>,
}

/// The URL's parts: host, port, path and query.
pub type SimpleUrlView = (Seq<char>, u16, Seq<char>, Option<Seq<char>>);

impl SimpleUrl {
    pub open spec fn view(&self) -> SimpleUrlView {
        (self.host@, self.port, self.path@, match self.query {
            Some(q) => Some(q@),
            None => None,
        })
    }
}

/// The URL without its scheme (`ws`, `http`, `wss` or `https`), if it has one.
pub open spec fn url_without_scheme(url: Seq<char>) -> Option<Seq<char>> {
    match strip_prefix(url, "ws://"@) {
        Some(r) => Some(r),
        None => match strip_prefix(url, "http://"@) {
            Some(r) => Some(r),
            None => match strip_prefix(url, "wss://"@) {
                Some(r) => Some(r),
                None => strip_prefix(url, "https://"@),
            },
        },
    }
}

/// How `parse_simple` reads a URL: `scheme://host[:port][/path][?query]`,
/// with port 80 when none is named; `None` without a known scheme or when
/// the port does not read as a number.
pub open spec fn simple_url(url: Seq<char>) -> Option<SimpleUrlView> {
    match url_without_scheme(url) {
        None => None,
        Some(w) => {
            let (host_port, rest) = match split_once(w, '/') {
                Some(p) => p,
                None => (w, seq![]),
            };
            let path = seq!['/'] + before_first(rest, seq!['?']);
            let query = match split_once(rest, '?') {
                Some((_, after)) => Some(after),
                None => None,
            };
            let (host, port_str) = match split_once(host_port, ':') {
                Some(p) => p,
                None => (host_port, "80"@),
            };
            match parse_unsigned(port_str, u16::MAX as nat) {
                Some(port) => Some((host, port as u16, path, query)),
                None => None,
            }
        },
    }
}

/// Reads a URL of the form `scheme://host[:port][/path][?query]`.
pub fn parse_simple(url: &str) -> (r: Option<SimpleUrl>)
    ensures
        r is Some <==> simple_url(url@) is Some,
        r is Some ==> r->0.view() == simple_url(url@)->0,
{
    let u = chars_of(url);
    let w = match strip_prefix_chars(u.as_slice(), chars_of("ws://").as_slice()) {
        Some(r) => r,
        None => match strip_prefix_chars(u.as_slice(), chars_of("http://").as_slice()) {
            Some(r) => r,
            None => match strip_prefix_chars(u.as_slice(), chars_of("wss://").as_slice()) {
                Some(r) => r,
                None => match strip_prefix_chars(u.as_slice(), chars_of("https://").as_slice()) {
                    Some(r) => r,
                    None => {
                        return None;
                    },
                },
            },
        },
    };
    let (host_port, rest) = match split_once_chars(w.as_slice(), '/') {
        Some(p) => p,
        None => (w.clone(), Vec::new()),
    };
    let q = vec!['?'];
    assert(q@ =~= seq!['?']);
    let mut path = vec!['/'];
    let before_q = before_first_chars(rest.as_slice(), q.as_slice());
    append_chars(&mut path, before_q.as_slice());
    let query = match split_once_chars(rest.as_slice(), '?') {
        Some((_, after)) => Some(string_from_chars(after.as_slice())),
        None => None,
    };
    let (host, port_str) = match split_once_chars(host_port.as_slice(), ':') {
        Some(p) => p,
        None => (host_port.clone(), chars_of("80")),
    };
    match parse_u16(port_str.as_slice()) {
        Some(port) => {
            let r = SimpleUrl {
                host: string_from_chars(host.as_slice()),
                port,
                path: string_from_chars(path.as_slice()),
                query,
            };
            assert(r.view() == simple_url(url@)->0);
            Some(r)
        },
        None => None,
    }
}


// ───────────────────────── inspector discovery ─────────────────────────

/// First port of the inspector's conventional range.
pub const INSPECTOR_PORT_FIRST: u16 = 9229;

/// Last port of the inspector's conventional range.
pub const INSPECTOR_PORT_LAST: u16 = 9239;

/// The port an `--inspect-port=N` or `--inspect=N` argument names.
pub open spec fn inspect_arg_port(arg: Seq<char>) -> Option<nat> {
    match strip_prefix(arg, "--inspect-port="@) {
        Some(rest) => parse_unsigned(rest, u16::MAX as nat),
        None => match strip_prefix(arg, "--inspect="@) {
            Some(rest) => parse_unsigned(rest, u16::MAX as nat),
            None => None,
        },
    }
}

/// The ports the arguments among the first `n` name, in order.
pub open spec fn inspect_arg_ports(args: Seq<Seq<char>>, n: int) -> Seq<u16>
    decreases n,
{
    if n <= 0 {
        seq![]
    } else {
        match inspect_arg_port(args[n - 1]) {
            Some(p) => inspect_arg_ports(args, n - 1).push(p as u16),
            None => inspect_arg_ports(args, n - 1),
        }
    }
}

/// The conventional inspector ports, 9229 to 9239.
pub open spec fn conventional_inspector_ports() -> Seq<u16> {
    Seq::new(
        (INSPECTOR_PORT_LAST - INSPECTOR_PORT_FIRST + 1) as nat,
        |i: int| (INSPECTOR_PORT_FIRST + i) as u16,
    )
}

/// The ports a Node.js process's inspector is looked for on, in the order
/// they are tried: the conventional range, then the ports its command line
/// (NUL-separated, as `/proc/<pid>/cmdline` holds it) names with
/// `--inspect-port=` or `--inspect=`.
pub fn inspector_port_candidates(cmdline: &str) -> (r: Vec<u16>)
    ensures
        r@ == conventional_inspector_ports() + inspect_arg_ports(
            split_on(cmdline@, '\0'),
            split_on(cmdline@, '\0').len() as int,
        ),
{
    let mut r: Vec<u16> = Vec::new();
    let mut p: u16 = INSPECTOR_PORT_FIRST;
    while p <= INSPECTOR_PORT_LAST
        invariant
            INSPECTOR_PORT_FIRST <= p <= INSPECTOR_PORT_LAST + 1,
            r@ == conventional_inspector_ports().take(p - INSPECTOR_PORT_FIRST),
        decreases INSPECTOR_PORT_LAST + 1 - p,
    {
        r.push(p);
        assert(r@ =~= conventional_inspector_ports().take(p + 1 - INSPECTOR_PORT_FIRST));
        p += 1;
    }
    assert(r@ =~= conventional_inspector_ports());
    let ghost base = r@;
    let cs = chars_of(cmdline);
    let args = split_on_char(cs.as_slice(), '\0');
    let ghost av = seqs(args@);
    let long = chars_of("--inspect-port=");
    let short = chars_of("--inspect=");
    let mut k: usize = 0;
    while k < args.len()
        invariant
            k <= args@.len(),
            av == seqs(args@),
            av == split_on(cmdline@, '\0'),
            long@ == "--inspect-port="@,
            short@ == "--inspect="@,
            r@ == base + inspect_arg_ports(av, k as int),
        decreases args.len() - k,
    {
        assert(args@[k as int]@ == av[k as int]);
        let rest = match strip_prefix_chars(args[k].as_slice(), long.as_slice()) {
            Some(x) => Some(x),
            None => strip_prefix_chars(args[k].as_slice(), short.as_slice()),
        };
        if let Some(x) = rest {
            if let Some(port) = parse_u16(x.as_slice()) {
                r.push(port);
            }
        }
        assert(r@ =~= base + inspect_arg_ports(av, k as int + 1));
        k += 1;
    }
    r
}

// ───────────────────────── WebSocket frames ─────────────────────────

/// The masking key the client uses for every frame.
pub open spec fn ws_mask() -> Seq<u8> {
    seq![0x37u8, 0xfau8, 0x21u8, 0x3du8]
}

/// The `k` big-endian bytes of `n` (of `n mod 256^k`).
pub open spec fn be_bytes(n: nat, k: nat) -> Seq<u8>
    decreases k,
{
    if k == 0 {
        seq![]
    } else {
        be_bytes(n / 256, (k - 1) as nat).push((n % 256) as u8)
    }
}

/// The number that big-endian bytes denote.
pub open spec fn be_value(s: Seq<u8>) -> nat
    decreases s.len(),
{
    if s.len() == 0 {
        0
    } else {
        be_value(s.drop_last()) * 256 + s.last() as nat
    }
}

pub open spec fn pow256(k: nat) -> nat
    decreases k,
{
    if k == 0 {
        1
    } else {
        256 * pow256((k - 1) as nat)
    }
}

/// `payload` XOR-ed with the repeating 4-byte `mask`.
pub open spec fn masked(payload: Seq<u8>, mask: Seq<u8>) -> Seq<u8> {
    Seq::new(payload.len(), |i: int| payload[i] ^ mask[i % 4])
}

/// The length field of a masked frame: 7 bits, or 126 and 16 bits, or 127
/// and 64 bits.
pub open spec fn ws_length_header(len: nat) -> Seq<u8> {
    if len < 126 {
        seq![(0x80 + len) as u8]
    } else if len < 65536 {
        seq![0xfeu8] + be_bytes(len, 2)
    } else {
        seq![0xffu8] + be_bytes(len, 8)
    }
}

/// A final, masked text frame carrying `payload`.
pub open spec fn ws_text_frame(payload: Seq<u8>) -> Seq<u8> {
    seq![0x81u8] + ws_length_header(payload.len()) + ws_mask() + masked(payload, ws_mask())
}

fn be_bytes_exec(n: u64, k: usize) -> (r: Vec<u8>)
    ensures
        r@ == be_bytes(n as nat, k as nat),
    decreases k,
{
    if k == 0 {
        Vec::new()
    } else {
        let mut r = be_bytes_exec(n / 256, k - 1);
        r.push((n % 256) as u8);
        r
    }
}

/// Frames `payload` as one final, masked WebSocket text frame, as a client
/// must send it.
pub fn encode_ws_frame(payload: &[u8]) -> (frame: Vec<u8>)
    ensures
        frame@ == ws_text_frame(payload@),
{
    let mut frame: Vec<u8> = Vec::new();
    frame.push(0x81);
    let len = payload.len();
    let mask_key: [u8; 4] = [0x37, 0xfa, 0x21, 0x3d];
    assert(mask_key@ =~= ws_mask());
    let ghost hdr_start = frame@;
    if len < 126 {
        frame.push(0x80 + len as u8);
    } else if len < 65536 {
        frame.push(0x80 | 126u8);
        assert(0x80u8 | 126u8 == 0xfeu8) by (bit_vector);
        let b = be_bytes_exec(len as u64, 2);
        let mut k: usize = 0;
        while k < b.len()
            invariant
                k <= b.len(),
                frame@ == hdr_start + seq![0xfeu8] + b@.take(k as int),
            decreases b.len() - k,
        {
            frame.push(b[k]);
            k += 1;
            assert(frame@ =~= hdr_start + seq![0xfeu8] + b@.take(k as int));
        }
        assert(b@.take(b.len() as int) =~= b@);
    } else {
        frame.push(0x80 | 127u8);
        assert(0x80u8 | 127u8 == 0xffu8) by (bit_vector);
        let b = be_bytes_exec(len as u64, 8);
        let mut k: usize = 0;
        while k < b.len()
            invariant
                k <= b.len(),
                frame@ == hdr_start + seq![0xffu8] + b@.take(k as int),
            decreases b.len() - k,
        {
            frame.push(b[k]);
            k += 1;
            assert(frame@ =~= hdr_start + seq![0xffu8] + b@.take(k as int));
        }
        assert(b@.take(b.len() as int) =~= b@);
    }
    assert(frame@ =~= seq![0x81u8] + ws_length_header(len as nat));
    let ghost head = frame@;
    frame.push(mask_key[0]);
    frame.push(mask_key[1]);
    frame.push(mask_key[2]);
    frame.push(mask_key[3]);
    assert(frame@ =~= head + ws_mask());
    let ghost body_start = frame@;
    let mut i: usize = 0;
    while i < payload.len()
        invariant
            i <= payload.len(),
            mask_key@ == ws_mask(),
            frame@ == body_start + masked(payload@, ws_mask()).take(i as int),
        decreases payload.len() - i,
    {
        frame.push(payload[i] ^ mask_key[i % 4]);
        i += 1;
        assert(frame@ =~= body_start + masked(payload@, ws_mask()).take(i as int));
    }
    assert(masked(payload@, ws_mask()).take(payload.len() as int) =~= masked(payload@, ws_mask()));
    frame
}

/// The header of a frame: whether it is masked, its payload length and where
/// the masking key (or, unmasked, the payload) starts; `None` when the data
/// is too short to hold the header.
pub open spec fn ws_frame_header(data: Seq<u8>) -> Option<(bool, nat, nat)> {
    if data.len() < 2 {
        None
    } else {
        let is_masked = data[1] >= 128;
        let len7 = data[1] % 128;
        if len7 == 126 {
            if data.len() < 4 {
                None
            } else {
                Some((is_masked, be_value(data.subrange(2, 4)), 4))
            }
        } else if len7 == 127 {
            if data.len() < 10 {
                None
            } else {
                Some((is_masked, ((be_value(data.subrange(2, 10)) as u64) as usize) as nat, 10))
            }
        } else {
            Some((is_masked, len7 as nat, 2))
        }
    }
}

/// The payload of the WebSocket frame at the start of `data`, unmasked when
/// the frame is masked; `None` when the data is shorter than the frame.
pub open spec fn ws_frame_payload(data: Seq<u8>) -> Option<Seq<u8>> {
    match ws_frame_header(data) {
        None => None,
        Some((is_masked, len, offset)) => if is_masked {
            if data.len() < offset + 4 + len {
                None
            } else {
                Some(
                    masked(
                        data.subrange(offset + 4 as int, offset + 4 + len as int),
                        data.subrange(offset as int, offset + 4 as int),
                    ),
                )
            }
        } else {
            if data.len() < offset + len {
                None
            } else {
                Some(data.subrange(offset as int, offset + len as int))
            }
        },
    }
}

fn be_value_exec(data: &[u8], start: usize, end: usize) -> (r: u64)
    requires
        start <= end <= data.len(),
        end - start <= 8,
    ensures
        r as nat == be_value(data@.subrange(start as int, end as int)),
{
    let mut acc: u64 = 0;
    let mut k = start;
    while k < end
        invariant
            start <= k <= end,
            end <= data.len(),
            end - start <= 8,
            acc as nat == be_value(data@.subrange(start as int, k as int)),
            (acc as nat) < pow256((k - start) as nat),
        decreases end - k,
    {
        let ghost t = data@.subrange(start as int, k + 1);
        assert(t.drop_last() =~= data@.subrange(start as int, k as int));
        assert(pow256((k - start) as nat) <= pow256(7)) by {
            lemma_pow256_monotone((k - start) as nat, 7);
        }
        assert(pow256(7) == 0x100000000000000) by {
            reveal_with_fuel(pow256, 8);
        }
        acc = acc * 256 + data[k] as u64;
        k += 1;
    }
    acc
}

proof fn lemma_pow256_monotone(a: nat, b: nat)
    requires
        a <= b,
    ensures
        pow256(a) <= pow256(b),
    decreases b,
{
    if a < b {
        lemma_pow256_monotone(a, (b - 1) as nat);
    }
}

/// Extracts the payload of the WebSocket frame at the start of `data`,
/// removing the mask of a masked frame.
pub fn decode_ws_frame(data: &[u8]) -> (r: Option<Vec<u8>>)
    ensures
        r is Some <==> ws_frame_payload(data@) is Some,
        r is Some ==> r->0@ == ws_frame_payload(data@)->0,
{
    if data.len() < 2 {
        return None;
    }
    let b1 = data[1];
    let is_masked = (b1 & 0x80) != 0;
    assert(((b1 & 0x80u8) != 0u8) == (b1 >= 128u8)) by (bit_vector);
    let mut len: usize = (b1 & 0x7f) as usize;
    assert((b1 & 0x7fu8) == b1 % 128u8) by (bit_vector);
    let mut offset: usize = 2;
    assert(data@[1] == b1);
    if len == 126 {
        if data.len() < 4 {
            return None;
        }
        let v = be_value_exec(data, 2, 4);
        assert(v as nat == be_value(data@.subrange(2, 4)));
        proof {
            let t = data@.subrange(2, 4);
            assert(t.drop_last().drop_last() =~= Seq::<u8>::empty());
            reveal_with_fuel(be_value, 3);
            assert(be_value(t) == t[0] as nat * 256 + t[1] as nat);
        }
        len = v as usize;
        offset = 4;
        assert(ws_frame_header(data@) == Some((is_masked, len as nat, offset as nat)));
    } else if len == 127 {
        if data.len() < 10 {
            return None;
        }
        let v = be_value_exec(data, 2, 10);
        assert(v == be_value(data@.subrange(2, 10)) as u64);
        len = v as usize;
        assert(len as nat == ((be_value(data@.subrange(2, 10)) as u64) as usize) as nat);
        offset = 10;
        assert(ws_frame_header(data@) == Some((is_masked, len as nat, offset as nat)));
    } else {
        assert(ws_frame_header(data@) == Some((is_masked, len as nat, offset as nat)));
    }
    assert(ws_frame_header(data@) == Some((is_masked, len as nat, offset as nat)));
    if is_masked {
        if len > usize::MAX - (offset + 4) || data.len() < offset + 4 + len {
            return None;
        }
        let m0 = data[offset];
        let m1 = data[offset + 1];
        let m2 = data[offset + 2];
        let m3 = data[offset + 3];
        let mask: [u8; 4] = [m0, m1, m2, m3];
        let ghost mview = data@.subrange(offset as int, offset + 4);
        assert(mask@ =~= mview);
        offset += 4;
        if data.len() < offset + len {
            return None;
        }
        let ghost src = data@.subrange(offset as int, offset + len);
        let mut out: Vec<u8> = Vec::new();
        let mut i: usize = 0;
        while i < len
            invariant
                i <= len,
                offset + len <= data.len(),
                src == data@.subrange(offset as int, offset + len),
                mask@ == mview,
                mview.len() == 4,
                out@ == masked(src, mview).take(i as int),
            decreases len - i,
        {
            out.push(data[offset + i] ^ mask[i % 4]);
            i += 1;
            assert(out@ =~= masked(src, mview).take(i as int));
        }
        assert(masked(src, mview).take(len as int) =~= masked(src, mview));
        Some(out)
    } else {
        if len > usize::MAX - offset || data.len() < offset + len {
            return None;
        }
        let mut out: Vec<u8> = Vec::new();
        let mut i: usize = 0;
        while i < len
            invariant
                i <= len,
                offset + len <= data.len(),
                out@ == data@.subrange(offset as int, offset + i),
            decreases len - i,
        {
            out.push(data[offset + i]);
            i += 1;
        }
        Some(out)
    }
}


proof fn lemma_be_roundtrip(n: nat, k: nat)
    ensures
        be_bytes(n, k).len() == k,
        be_value(be_bytes(n, k)) == n % pow256(k),
    decreases k,
{
    if k > 0 {
        lemma_be_roundtrip(n / 256, (k - 1) as nat);
        let b = be_bytes(n, k);
        assert(b.drop_last() == be_bytes(n / 256, (k - 1) as nat));
        lemma_pow256_positive((k - 1) as nat);
        vstd::arithmetic::div_mod::lemma_mod_breakdown(n as int, 256, pow256((k - 1) as nat) as int);
        vstd::arithmetic::mul::lemma_mul_is_commutative(256, ((n / 256) % pow256((k - 1) as nat)) as int);
    }
}

proof fn lemma_pow256_positive(k: nat)
    ensures
        pow256(k) > 0,
    decreases k,
{
    if k > 0 {
        lemma_pow256_positive((k - 1) as nat);
    }
}

proof fn lemma_unmask(p: Seq<u8>, m: Seq<u8>)
    requires
        m.len() == 4,
    ensures
        masked(masked(p, m), m) == p,
{
    assert forall|i: int| 0 <= i < p.len() implies #[trigger] masked(masked(p, m), m)[i] == p[i] by {
        let a = p[i];
        let b = m[i % 4];
        assert((a ^ b) ^ b == a) by (bit_vector);
    }
    assert(masked(masked(p, m), m) =~= p);
}

/// Decoding the frame that encoding `payload` yields gives `payload` back.
pub proof fn law_ws_frame_roundtrip(payload: Seq<u8>)
    requires
        payload.len() + 14 <= usize::MAX,
    ensures
        ws_frame_payload(ws_text_frame(payload)) == Some(payload),
{
    let len = payload.len();
    let f = ws_text_frame(payload);
    let h = ws_length_header(len);
    let mk = masked(payload, ws_mask());
    lemma_unmask(payload, ws_mask());
    assert(f == seq![0x81u8] + h + ws_mask() + mk);
    if len < 126 {
        let off: int = 2;
        assert(f[1] == (0x80 + len) as u8);
        assert(f.subrange(off, off + 4) =~= ws_mask());
        assert(f.subrange(off + 4, off + 4 + len) =~= mk);
        assert(ws_frame_header(f) == Some((true, len as nat, 2nat)));
    } else if len < 65536 {
        lemma_be_roundtrip(len, 2);
        assert(pow256(2) == 65536) by {
            reveal_with_fuel(pow256, 3);
        }
        let off: int = 4;
        assert(f[1] == 0xfeu8);
        assert(f.subrange(2, 4) =~= be_bytes(len, 2));
        assert(f.subrange(off, off + 4) =~= ws_mask());
        assert(f.subrange(off + 4, off + 4 + len) =~= mk);
        assert(ws_frame_header(f) == Some((true, len as nat, 4nat)));
    } else {
        lemma_be_roundtrip(len, 8);
        assert(pow256(8) == 0x10000000000000000) by {
            reveal_with_fuel(pow256, 9);
        }
        let off: int = 10;
        assert(f[1] == 0xffu8);
        assert(f.subrange(2, 10) =~= be_bytes(len, 8));
        assert(be_value(f.subrange(2, 10)) == len);
        assert(f.subrange(off, off + 4) =~= ws_mask());
        assert(f.subrange(off + 4, off + 4 + len) =~= mk);
        assert(ws_frame_header(f) == Some((true, len as nat, 10nat)));
    }
}

// ───────────────────────── inspector replies ─────────────────────────

/// The string found at JSON pointer `pointer` in the JSON document `doc`:
/// `None` when `doc` is not JSON, nothing is there, or what is there is not
/// a string.
pub uninterp spec fn json_str_at(doc: Seq<u8>, pointer: Seq<char>) -> Option<Seq<char>>;

/// `serde_json::from_slice` into a `Value`, then `Value::pointer` and
/// `Value::as_str`; the result is claimed to be `json_str_at` of the
/// arguments, a function of them alone.
#[verifier::external_body]
fn json_str_at_exec(doc: &[u8], pointer: &str) -> (r: Option<String>)
    ensures
        opt_view(r) == json_str_at(doc@, pointer@),
{
    let v: serde_json::Value = serde_json::from_slice(doc).ok()?;
    v.pointer(pointer)?.as_str().map(|t| t.to_string())
}

/// Field `key` of the JSON text `doc` as an unsigned integer: `None` when
/// `doc` is not JSON, `Some(None)` when it has no such field or the field
/// is not an integer that fits in 64 bits.
pub uninterp spec fn json_u64_field(doc: Seq<char>, key: Seq<char>) -> Option<Option<u64>>;

/// `serde_json::from_str` into a `Value`, then indexing by `key` (which
/// gives `Null` for a missing field) and `Value::as_u64`; the result is
/// claimed to be `json_u64_field` of the arguments.
#[verifier::external_body]
fn json_u64_field_exec(doc: &str, key: &str) -> (r: Option<Option<u64>>)
    ensures
        r == json_u64_field(doc@, key@),
{
    let v: serde_json::Value = serde_json::from_str(doc).ok()?;
    Some(v[key].as_u64())
}

/// Field `key` of the first element of the JSON array `doc`, as a string:
/// `None` when `doc` is not JSON, not an array, is empty, or that field is
/// missing or not a string.
pub uninterp spec fn json_first_field_str(doc: Seq<char>, key: Seq<char>) -> Option<Seq<char>>;

/// `serde_json::from_str` into a `Value`, then `as_array`, `first`, `get`
/// and `as_str`; the result is claimed to be `json_first_field_str` of the
/// arguments.
#[verifier::external_body]
fn json_first_field_str_exec(doc: &str, key: &str) -> (r: Option<String>)
    ensures
        opt_view(r) == json_first_field_str(doc@, key@),
{
    let v: serde_json::Value = serde_json::from_str(doc).ok()?;
    v.as_array()?.first()?.get(key)?.as_str().map(|t| t.to_string())
}

/// For each element of the JSON array `doc`, in order, its field `name_key`
/// as a string and its field `value_key` as an unsigned integer; empty when
/// `doc` is not a JSON array.
pub uninterp spec fn json_array_pairs(doc: Seq<char>, name_key: Seq<char>, value_key: Seq<char>) -> Seq<
    (Option<Seq<char>>, Option<u64>),
>;

/// `serde_json::from_str` into a `Value`; for an array, each element indexed
/// by the two keys, read with `Value::as_str` and `Value::as_u64`. The
/// result is claimed to be `json_array_pairs` of the arguments.
#[verifier::external_body]
fn json_array_pairs_exec(doc: &str, name_key: &str, value_key: &str) -> (r: Vec<(Option<String>, Option<u64>)>)
    ensures
        r@.len() == json_array_pairs(doc@, name_key@, value_key@).len(),
        forall|k: int|
            0 <= k < r@.len() ==> (opt_view((#[trigger] r@[k]).0), r@[k].1) == json_array_pairs(
                doc@,
                name_key@,
                value_key@,
            )[k],
{
    match serde_json::from_str::<serde_json::Value>(doc) {
        Ok(serde_json::Value::Array(items)) => items
            .iter()
            .map(|e| (e[name_key].as_str().map(|t| t.to_string()), e[value_key].as_u64()))
            .collect(),
        _ => Vec::new(),
    }
}

/// Where the evaluated expression's value sits in a `Runtime.evaluate` reply.
pub open spec fn eval_value_pointer() -> Seq<char> {
    "/result/result/value"@
}

pub open spec fn u64_or_zero(o: Option<u64>) -> u64 {
    match o {
        Some(v) => v,
        None => 0,
    }
}

/// The text an evaluation reply frame carries as the evaluated value: the
/// string at `/result/result/value` in the frame's payload; `None` when the
/// frame does not decode or the payload holds no such string.
pub open spec fn eval_value(frame: Seq<u8>) -> Option<Seq<char>> {
    match ws_frame_payload(frame) {
        None => None,
        Some(payload) => json_str_at(payload, eval_value_pointer()),
    }
}

/// Reads the evaluated value's text out of a `Runtime.evaluate` reply frame
/// (see `eval_value`).
pub fn eval_value_of_reply(frame: &[u8]) -> (r: Option<String>)
    ensures
        opt_view(r) == eval_value(frame@),
{
    let payload = decode_ws_frame(frame)?;
    json_str_at_exec(payload.as_slice(), "/result/result/value")
}

/// The heap in use and the heap reserved, in bytes, that the inspector's
/// reply frame to the memory-usage evaluation reports: the frame's payload,
/// the JSON text at `/result/result/value` in it, and that text's
/// `heapUsed` and `heapTotal` (0 when missing). `None` when the frame does
/// not decode, the payload holds no such text, or the text is not JSON.
pub open spec fn heap_reply(frame: Seq<u8>) -> Option<(u64, u64)> {
    match eval_value(frame) {
        None => None,
        Some(text) => match json_u64_field(text, "heapUsed"@) {
            None => None,
            Some(used) => match json_u64_field(text, "heapTotal"@) {
                None => None,
                Some(total) => Some((u64_or_zero(used), u64_or_zero(total))),
            },
        },
    }
}

/// Reads the heap figures out of the inspector's reply frame (see
/// `heap_reply`).
pub fn heap_of_reply(frame: &[u8]) -> (r: Option<(u64, u64)>)
    ensures
        r == heap_reply(frame@),
{
    let text = eval_value_of_reply(frame)?;
    let used = json_u64_field_exec(text.as_str(), "heapUsed")?;
    let total = json_u64_field_exec(text.as_str(), "heapTotal")?;
    let used = match used {
        Some(v) => v,
        None => 0,
    };
    let total = match total {
        Some(v) => v,
        None => 0,
    };
    Some((used, total))
}

/// Bytes in use in each V8 heap space.
#[derive(Clone, Copy, Debug, Default, PartialEq, Eq, Structural)]
pub struct HeapSpaces {
    pub new_space: u64,
    pub old_space: u64,
    pub code_space: u64,
    pub map_space: u64,
}

/// The used size of the first entry from `i` on named `name`; 0 when no
/// entry is so named, or when that entry's size is missing.
pub open spec fn space_used(entries: Seq<(Option<Seq<char>>, Option<u64>)>, name: Seq<char>, i: int) -> u64
    decreases entries.len() - i,
{
    if i < 0 || i >= entries.len() {
        0
    } else if entries[i].0 == Some(name) {
        u64_or_zero(entries[i].1)
    } else {
        space_used(entries, name, i + 1)
    }
}

/// The heap-space statistics that the inspector's reply frame to the
/// heap-space evaluation holds, as `(space_name, space_used_size)` entries:
/// the JSON text at `/result/result/value` in the frame's payload (an empty
/// payload when the frame does not decode; `[]` when there is no such text).
pub open spec fn space_entries(frame: Seq<u8>) -> Seq<(Option<Seq<char>>, Option<u64>)> {
    let payload = match ws_frame_payload(frame) {
        Some(p) => p,
        None => seq![],
    };
    let text = match json_str_at(payload, eval_value_pointer()) {
        Some(t) => t,
        None => "[]"@,
    };
    json_array_pairs(text, "space_name"@, "space_used_size"@)
}

fn space_used_exec(entries: &Vec<(Option<String>, Option<u64>)>, name: &str) -> (r: u64)
    ensures
        r == space_used(
            Seq::new(entries@.len(), |k: int| (opt_view(entries@[k].0), entries@[k].1)),
            name@,
            0,
        ),
{
    let ghost ev = Seq::new(entries@.len(), |k: int| (opt_view(entries@[k].0), entries@[k].1));
    let want = chars_of(name);
    let mut i: usize = 0;
    while i < entries.len()
        invariant
            i <= entries@.len(),
            ev == Seq::new(entries@.len(), |k: int| (opt_view(entries@[k].0), entries@[k].1)),
            want@ == name@,
            space_used(ev, name@, 0) == space_used(ev, name@, i as int),
        decreases entries.len() - i,
    {
        if let Some(n) = &entries[i].0 {
            if chars_eq(chars_of(n.as_str()).as_slice(), want.as_slice()) {
                assert(ev[i as int].0 == Some(name@));
                return match entries[i].1 {
                    Some(v) => v,
                    None => 0,
                };
            }
        }
        assert(ev[i as int].0 != Some(name@));
        i += 1;
    }
    0
}

/// Reads the new, old, code and map space sizes out of the inspector's reply
/// frame (see `space_entries` and `space_used`).
pub fn heap_spaces_of_reply(frame: &[u8]) -> (r: HeapSpaces)
    ensures
        r.new_space == space_used(space_entries(frame@), "new_space"@, 0),
        r.old_space == space_used(space_entries(frame@), "old_space"@, 0),
        r.code_space == space_used(space_entries(frame@), "code_space"@, 0),
        r.map_space == space_used(space_entries(frame@), "map_space"@, 0),
{
    let payload = match decode_ws_frame(frame) {
        Some(p) => p,
        None => Vec::new(),
    };
    let text = match json_str_at_exec(payload.as_slice(), "/result/result/value") {
        Some(t) => t,
        None => "[]".to_string(),
    };
    let entries = json_array_pairs_exec(text.as_str(), "space_name", "space_used_size");
    proof {
        let ev = Seq::new(entries@.len(), |k: int| (opt_view(entries@[k].0), entries@[k].1));
        assert(ev =~= space_entries(frame@));
    }
    HeapSpaces {
        new_space: space_used_exec(&entries, "new_space"),
        old_space: space_used_exec(&entries, "old_space"),
        code_space: space_used_exec(&entries, "code_space"),
        map_space: space_used_exec(&entries, "map_space"),
    }
}

/// The inspector's WebSocket URL that the body of its `/json` listing
/// gives: the first target's `webSocketDebuggerUrl`, with `port` put in
/// when it names none.
pub open spec fn inspector_ws_url(body: Seq<char>, port: u16) -> Option<Seq<char>> {
    match json_first_field_str(body, "webSocketDebuggerUrl"@) {
        Some(raw) => Some(normalized_ws_url(raw, port)),
        None => None,
    }
}

/// Reads the inspector's WebSocket URL out of its `/json` listing (see
/// `inspector_ws_url`).
pub fn inspector_ws_url_of(body: &str, port: u16) -> (r: Option<String>)
    ensures
        opt_view(r) == inspector_ws_url(body@, port),
{
    let raw = json_first_field_str_exec(body, "webSocketDebuggerUrl")?;
    Some(normalize_ws_url(raw.as_str(), port))
}

} // verus!
