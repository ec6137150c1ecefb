//! HTTP reverse proxy monitoring: where the status endpoint is, and how the
//! nginx `stub_status` and Apache `server-status?auto` pages read.
use vstd::prelude::*;
use crate::collectors::ports::{
    chars_eq, container_port, container_port_of, host_port, host_port_of, parse_port, string_views,
};
use crate::models::HttpProxyType;
use crate::ui::history::{bounded_push, push_capped};
use std::collections::VecDeque;
use crate::text::{
    number_or_zero, number_or_zero_u32, number_or_zero_u64,
    chars_of, contains, contains_chars, find_chars, find_from, lines, parse_u16, parse_u32, parse_u64, parse_unsigned, seqs,
    slice_chars, split_lines, split_words, starts_with, starts_with_chars, trim, trim_chars, words,
};

verus! {

/// State of the connection to a monitored proxy.
#[derive(Clone, Debug, PartialEq, Eq)]
pub enum ProxyConnectionStatus {
    Disconnected,
    Connecting,
    Connected,
    Error(String),
}

/// The integer counters a proxy's status page reports.
#[derive(Clone, Copy, Debug, Default, PartialEq, Eq, Structural)]
pub struct ProxyCounters {
    pub active_connections: u32,
    pub requests_total: u64,
    pub status_1xx: u64,
    pub status_2xx: u64,
    pub status_3xx: u64,
    pub status_4xx: u64,
    pub status_5xx: u64,
    pub reading: u32,
    pub writing: u32,
    pub waiting: u32,
    pub busy_workers: u32,
    pub idle_workers: u32,
}

pub open spec fn default_proxy_port(t: HttpProxyType) -> u16 {
    match t {
        HttpProxyType::Traefik => 9090,
        HttpProxyType::Nginx => 80,
        HttpProxyType::Apache => 80,
    }
}

pub open spec fn proxy_port_at(ws: Seq<Seq<char>>, i: int) -> Option<nat> {
    if (ws[i] == "--port"@ || ws[i] == "-p"@) && i + 1 < ws.len() {
        parse_port(ws[i + 1])
    } else {
        None
    }
}

pub open spec fn first_proxy_port(ws: Seq<Seq<char>>, i: int) -> Option<nat>
    decreases ws.len() - i,
{
    if i < 0 || i >= ws.len() {
        None
    } else if proxy_port_at(ws, i) is Some {
        proxy_port_at(ws, i)
    } else {
        first_proxy_port(ws, i + 1)
    }
}

pub open spec fn proxy_port_of_cmd(cmd: Seq<char>, t: HttpProxyType) -> u16 {
    match first_proxy_port(words(cmd), 0) {
        Some(p) => p as u16,
        None => default_proxy_port(t),
    }
}

/// The status port of a proxy started with command line `cmd`: the first
/// port that `--port N` or `-p N` names, or the proxy's default.
pub fn extract_proxy_port(cmd: &str, proxy_type: HttpProxyType) -> (r: u16)
    ensures
        r == proxy_port_of_cmd(cmd@, proxy_type),
{
    let cs = chars_of(cmd);
    let ws = split_words(&cs);
    let ghost wv = seqs(ws@);
    let flag1 = chars_of("--port");
    let flag2 = chars_of("-p");
    let mut i: usize = 0;
    while i < ws.len()
        invariant
            i <= ws.len(),
            wv == seqs(ws@),
            wv == words(cmd@),
            flag1@ == "--port"@,
            flag2@ == "-p"@,
            first_proxy_port(wv, 0) == first_proxy_port(wv, i as int),
        decreases ws.len() - i,
    {
        let w = &ws[i];
        assert(w@ == wv[i as int]);
        if (chars_eq(w.as_slice(), flag1.as_slice()) || chars_eq(w.as_slice(), flag2.as_slice()))
            && i + 1 < ws.len() {
            assert(ws[i + 1]@ == wv[i + 1]);
            if let Some(port) = parse_u16(ws[i + 1].as_slice()) {
                return port;
            }
        }
        i += 1;
    }
    match proxy_type {
        HttpProxyType::Traefik => 9090,
        HttpProxyType::Nginx => 80,
        HttpProxyType::Apache => 80,
    }
}

/// The container ports a proxy's status endpoint is looked for on, in order.
pub open spec fn proxy_candidates(t: HttpProxyType) -> Seq<nat> {
    match t {
        HttpProxyType::Traefik => seq![9090, 8082, 8080, 80, 443],
        HttpProxyType::Nginx => seq![80, 8080, 443],
        HttpProxyType::Apache => seq![80, 8080, 443],
    }
}

/// Among `ports[i..]`, the host port of the first mapping from container port
/// `cand` whose host port reads as a number.
pub open spec fn host_port_for(ports: Seq<Seq<char>>, cand: nat, i: int) -> Option<nat>
    decreases ports.len() - i,
{
    if i < 0 || i >= ports.len() {
        None
    } else if container_port(ports[i]) == Some(cand) && host_port(ports[i]) is Some {
        host_port(ports[i])
    } else {
        host_port_for(ports, cand, i + 1)
    }
}

/// The host port for the first candidate container port (from `cands[j..]`)
/// that some mapping publishes.
pub open spec fn first_candidate_port(ports: Seq<Seq<char>>, cands: Seq<nat>, j: int) -> Option<nat>
    decreases cands.len() - j,
{
    if j < 0 || j >= cands.len() {
        None
    } else if host_port_for(ports, cands[j], 0) is Some {
        host_port_for(ports, cands[j], 0)
    } else {
        first_candidate_port(ports, cands, j + 1)
    }
}

pub open spec fn proxy_container_port(ports: Seq<Seq<char>>, t: HttpProxyType) -> u16 {
    match first_candidate_port(ports, proxy_candidates(t), 0) {
        Some(p) => p as u16,
        None => default_proxy_port(t),
    }
}

fn host_port_for_exec(ports: &[String], cand: u16) -> (r: Option<u16>)
    ensures
        r is Some <==> host_port_for(string_views(ports@), cand as nat, 0) is Some,
        r is Some ==> r->0 as nat == host_port_for(string_views(ports@), cand as nat, 0)->0,
{
    let ghost views = string_views(ports@);
    let mut i: usize = 0;
    while i < ports.len()
        invariant
            i <= ports.len(),
            views == string_views(ports@),
            host_port_for(views, cand as nat, 0) == host_port_for(views, cand as nat, i as int),
        decreases ports.len() - i,
    {
        let p = chars_of(ports[i].as_str());
        assert(p@ == views[i as int]);
        if let Some(cp) = container_port_of(p.as_slice()) {
            if cp == cand {
                if let Some(hp) = host_port_of(p.as_slice()) {
                    return Some(hp);
                }
            }
        }
        i += 1;
    }
    None
}

/// The host port under which a proxy container publishes its status page:
/// for the first candidate container port (Traefik: 9090, 8082, 8080, 80, 443;
/// nginx and Apache: 80, 8080, 443) that a mapping publishes, that mapping's
/// host port; otherwise the proxy's default port.
pub fn extract_proxy_container_port(ports: &[String], proxy_type: HttpProxyType) -> (r: u16)
    ensures
        r == proxy_container_port(string_views(ports@), proxy_type),
{
    let cands: Vec<u16> = match proxy_type {
        HttpProxyType::Traefik => vec![9090, 8082, 8080, 80, 443],
        HttpProxyType::Nginx => vec![80, 8080, 443],
        HttpProxyType::Apache => vec![80, 8080, 443],
    };
    let ghost cv = proxy_candidates(proxy_type);
    assert(cands@.len() == cv.len());
    assert(forall|j: int| 0 <= j < cv.len() ==> cands@[j] as nat == #[trigger] cv[j]);
    let ghost views = string_views(ports@);
    let mut j: usize = 0;
    while j < cands.len()
        invariant
            j <= cands.len(),
            cands@.len() == cv.len(),
            cv == proxy_candidates(proxy_type),
            forall|m: int| 0 <= m < cv.len() ==> cands@[m] as nat == #[trigger] cv[m],
            views == string_views(ports@),
            first_candidate_port(views, cv, 0) == first_candidate_port(views, cv, j as int),
        decreases cands.len() - j,
    {
        assert(cands@[j as int] as nat == cv[j as int]);
        if let Some(p) = host_port_for_exec(ports, cands[j]) {
            return p;
        }
        j += 1;
    }
    match proxy_type {
        HttpProxyType::Traefik => 9090,
        HttpProxyType::Nginx => 80,
        HttpProxyType::Apache => 80,
    }
}


/// The words of a line that read as `u64`, in order.
pub open spec fn numeric_words(ws: Seq<Seq<char>>) -> Seq<nat>
    decreases ws.len(),
{
    if ws.len() == 0 {
        seq![]
    } else {
        let p = numeric_words(ws.drop_last());
        match parse_unsigned(ws.last(), u64::MAX as nat) {
            Some(v) => p.push(v),
            None => p,
        }
    }
}

/// The effect of one line of an nginx `stub_status` page.
pub open spec fn nginx_line(c: ProxyCounters, raw: Seq<char>) -> ProxyCounters {
    let line = trim(raw);
    if starts_with(line, "Active connections:"@) {
        let rest = line.skip("Active connections:"@.len() as int);
        ProxyCounters {
            active_connections: number_or_zero(trim(rest), u32::MAX as nat) as u32,
            ..c
        }
    } else if starts_with(line, "Reading:"@) {
        let parts = words(line);
        if parts.len() >= 6 {
            ProxyCounters {
                reading: number_or_zero(parts[1], u32::MAX as nat) as u32,
                writing: number_or_zero(parts[3], u32::MAX as nat) as u32,
                waiting: number_or_zero(parts[5], u32::MAX as nat) as u32,
                ..c
            }
        } else {
            c
        }
    } else {
        let nums = numeric_words(words(line));
        if nums.len() == 3 {
            ProxyCounters { requests_total: nums[2] as u64, ..c }
        } else {
            c
        }
    }
}

/// The counters after the first `n` lines of an nginx status page.
pub open spec fn nginx_lines(c: ProxyCounters, ls: Seq<Seq<char>>, n: int) -> ProxyCounters
    decreases n,
{
    if n <= 0 {
        c
    } else {
        nginx_line(nginx_lines(c, ls, n - 1), ls[n - 1])
    }
}

pub fn numeric_words_exec(ws: &Vec<Vec<char>>) -> (r: Vec<u64>)
    ensures
        r@.len() == numeric_words(seqs(ws@)).len(),
        forall|k: int| 0 <= k < r@.len() ==> r@[k] as nat == #[trigger] numeric_words(seqs(ws@))[k],
{
    let ghost wv = seqs(ws@);
    let mut r: Vec<u64> = Vec::new();
    let mut i: usize = 0;
    while i < ws.len()
        invariant
            i <= ws.len(),
            wv == seqs(ws@),
            r@.len() == numeric_words(wv.take(i as int)).len(),
            forall|k: int|
                0 <= k < r@.len() ==> r@[k] as nat == #[trigger] numeric_words(wv.take(i as int))[k],
        decreases ws.len() - i,
    {
        let ghost t = wv.take(i as int + 1);
        assert(t.drop_last() =~= wv.take(i as int));
        assert(t.last() == ws@[i as int]@);
        if let Some(v) = parse_u64(ws[i].as_slice()) {
            r.push(v);
        }
        i += 1;
    }
    assert(wv.take(ws.len() as int) =~= wv);
    r
}

/// Applies one line of an nginx status page.
fn nginx_line_exec(c: &mut ProxyCounters, raw: &[char])
    ensures
        *final(c) == nginx_line(*old(c), raw@),
{
    let line = trim_chars(raw);
    let active = chars_of("Active connections:");
    let reading = chars_of("Reading:");
    if starts_with_chars(line.as_slice(), active.as_slice()) {
        let rest = slice_chars(line.as_slice(), active.len(), line.len());
        assert(rest@ =~= line@.skip("Active connections:"@.len() as int));
        let t = trim_chars(rest.as_slice());
        c.active_connections = number_or_zero_u32(t.as_slice());
    } else if starts_with_chars(line.as_slice(), reading.as_slice()) {
        let parts = split_words(&line);
        if parts.len() >= 6 {
            assert(parts@[1]@ == seqs(parts@)[1]);
            assert(parts@[3]@ == seqs(parts@)[3]);
            assert(parts@[5]@ == seqs(parts@)[5]);
            c.reading = number_or_zero_u32(parts[1].as_slice());
            c.writing = number_or_zero_u32(parts[3].as_slice());
            c.waiting = number_or_zero_u32(parts[5].as_slice());
        }
    } else {
        let parts = split_words(&line);
        let nums = numeric_words_exec(&parts);
        if nums.len() == 3 {
            c.requests_total = nums[2];
        }
    }
}

/// Reads an nginx `stub_status` page: `Active connections: N`, the
/// `accepts handled requests` numbers (the third is the request total) and
/// `Reading: R Writing: W Waiting: K`. Counters whose line is absent keep
/// their value; a number that does not read counts as 0.
pub fn parse_nginx_status(body: &str, metrics: &mut ProxyCounters)
    ensures
        *final(metrics) == nginx_lines(*old(metrics), lines(body@), lines(body@).len() as int),
{
    let cs = chars_of(body);
    let ls = split_lines(cs.as_slice());
    let ghost lv = seqs(ls@);
    let mut k: usize = 0;
    while k < ls.len()
        invariant
            k <= ls.len(),
            lv == seqs(ls@),
            lv == lines(body@),
            *metrics == nginx_lines(*old(metrics), lv, k as int),
        decreases ls.len() - k,
    {
        assert(ls@[k as int]@ == lv[k as int]);
        nginx_line_exec(metrics, ls[k].as_slice());
        k += 1;
    }
}

/// The effect of one line of an Apache `server-status?auto` page.
pub open spec fn apache_line(c: ProxyCounters, line: Seq<char>) -> ProxyCounters {
    if starts_with(line, "Total Accesses:"@) {
        let rest = line.skip("Total Accesses:"@.len() as int);
        ProxyCounters { requests_total: number_or_zero(trim(rest), u64::MAX as nat) as u64, ..c }
    } else if starts_with(line, "BusyWorkers:"@) {
        let rest = line.skip("BusyWorkers:"@.len() as int);
        let busy = number_or_zero(trim(rest), u32::MAX as nat) as u32;
        ProxyCounters { busy_workers: busy, active_connections: busy, ..c }
    } else if starts_with(line, "IdleWorkers:"@) {
        let rest = line.skip("IdleWorkers:"@.len() as int);
        ProxyCounters { idle_workers: number_or_zero(trim(rest), u32::MAX as nat) as u32, ..c }
    } else {
        c
    }
}

pub open spec fn apache_lines(c: ProxyCounters, ls: Seq<Seq<char>>, n: int) -> ProxyCounters
    decreases n,
{
    if n <= 0 {
        c
    } else {
        apache_line(apache_lines(c, ls, n - 1), ls[n - 1])
    }
}

fn apache_line_exec(c: &mut ProxyCounters, line: &[char])
    ensures
        *final(c) == apache_line(*old(c), line@),
{
    let total = chars_of("Total Accesses:");
    let busy = chars_of("BusyWorkers:");
    let idle = chars_of("IdleWorkers:");
    if starts_with_chars(line, total.as_slice()) {
        let rest = slice_chars(line, total.len(), line.len());
        assert(rest@ =~= line@.skip("Total Accesses:"@.len() as int));
        let t = trim_chars(rest.as_slice());
        c.requests_total = number_or_zero_u64(t.as_slice());
    } else if starts_with_chars(line, busy.as_slice()) {
        let rest = slice_chars(line, busy.len(), line.len());
        assert(rest@ =~= line@.skip("BusyWorkers:"@.len() as int));
        let t = trim_chars(rest.as_slice());
        c.busy_workers = number_or_zero_u32(t.as_slice());
        c.active_connections = c.busy_workers;
    } else if starts_with_chars(line, idle.as_slice()) {
        let rest = slice_chars(line, idle.len(), line.len());
        assert(rest@ =~= line@.skip("IdleWorkers:"@.len() as int));
        let t = trim_chars(rest.as_slice());
        c.idle_workers = number_or_zero_u32(t.as_slice());
    }
}

/// Reads an Apache `server-status?auto` page: `Total Accesses`,
/// `BusyWorkers` (also taken as the active connection count) and
/// `IdleWorkers`.
pub fn parse_apache_status(body: &str, metrics: &mut ProxyCounters)
    ensures
        *final(metrics) == apache_lines(*old(metrics), lines(body@), lines(body@).len() as int),
{
    let cs = chars_of(body);
    let ls = split_lines(cs.as_slice());
    let ghost lv = seqs(ls@);
    let mut k: usize = 0;
    while k < ls.len()
        invariant
            k <= ls.len(),
            lv == seqs(ls@),
            lv == lines(body@),
            *metrics == apache_lines(*old(metrics), lv, k as int),
        decreases ls.len() - k,
    {
        assert(ls@[k as int]@ == lv[k as int]);
        apache_line_exec(metrics, ls[k].as_slice());
        k += 1;
    }
}


/// The value of label `label` in a Prometheus sample line: the text between
/// the first `label="` and the next `"`.
pub open spec fn label_value(line: Seq<char>, label: Seq<char>) -> Option<Seq<char>> {
    let search = label + seq!['=', '"'];
    match find_from(line, search, 0) {
        None => None,
        Some(i) => {
            let rest = line.skip(i + search.len());
            match find_from(rest, seq!['"'], 0) {
                None => None,
                Some(e) => Some(rest.take(e)),
            }
        },
    }
}

/// Reads the value of a label from a Prometheus sample line such as
/// `traefik_entrypoint_requests_total{code="200",...} 42`.
pub fn extract_label(line: &str, label: &str) -> (r: Option<String>)
    ensures
        r is Some <==> label_value(line@, label@) is Some,
        r is Some ==> r->0@ == label_value(line@, label@)->0,
{
    let lc = chars_of(line);
    let mut search = chars_of(label);
    search.push('=');
    search.push('"');
    assert(search@ =~= label@ + seq!['=', '"']);
    match find_chars(lc.as_slice(), search.as_slice(), 0) {
        None => None,
        Some(i) => {
            let start = i + search.len();
            let rest = slice_chars(lc.as_slice(), start, lc.len());
            assert(rest@ =~= line@.skip(i + search@.len()));
            let quote = vec!['"'];
            assert(quote@ =~= seq!['"']);
            match find_chars(rest.as_slice(), quote.as_slice(), 0) {
                None => None,
                Some(e) => {
                    let v = slice_chars(rest.as_slice(), 0, e);
                    assert(v@ =~= rest@.take(e as int));
                    Some(crate::text::string_from_chars(v.as_slice()))
                },
            }
        },
    }
}

/// The share of `n` in `total` as a whole percentage, as the status-code
/// histories record it: `n * 100 / max(total, 1)`, or 0 when `n * 100`
/// does not fit.
pub open spec fn share_pct(n: u64, total: u64) -> u64 {
    if n * 100 > u64::MAX {
        0
    } else {
        ((n * 100) / (if total == 0 { 1 } else { total as int })) as u64
    }
}

pub fn share_pct_exec(n: u64, total: u64) -> (r: u64)
    ensures
        r == share_pct(n, total),
{
    match n.checked_mul(100) {
        None => 0,
        Some(v) => v / (if total == 0 { 1 } else { total }),
    }
}

/// The sum of the five status-class counters.
pub open spec fn status_total(c: ProxyCounters) -> int {
    c.status_1xx + c.status_2xx + c.status_3xx + c.status_4xx + c.status_5xx
}

/// The percentages of 1xx, 2xx, 3xx, 4xx and 5xx responses among all counted
/// responses, as the status-code histories record them.
pub fn status_shares(c: &ProxyCounters) -> (r: [u64; 5])
    requires
        status_total(*c) <= u64::MAX,
    ensures
        r@ == seq![
            share_pct(c.status_1xx, status_total(*c) as u64),
            share_pct(c.status_2xx, status_total(*c) as u64),
            share_pct(c.status_3xx, status_total(*c) as u64),
            share_pct(c.status_4xx, status_total(*c) as u64),
            share_pct(c.status_5xx, status_total(*c) as u64),
        ],
{
    let total = c.status_1xx + c.status_2xx + c.status_3xx + c.status_4xx + c.status_5xx;
    let r = [
        share_pct_exec(c.status_1xx, total),
        share_pct_exec(c.status_2xx, total),
        share_pct_exec(c.status_3xx, total),
        share_pct_exec(c.status_4xx, total),
        share_pct_exec(c.status_5xx, total),
    ];
    assert(r@ =~= seq![
        share_pct(c.status_1xx, total),
        share_pct(c.status_2xx, total),
        share_pct(c.status_3xx, total),
        share_pct(c.status_4xx, total),
        share_pct(c.status_5xx, total),
    ]);
    r
}

proof fn lemma_div_sum(a: int, b: int, t: int)
    requires
        a >= 0,
        b >= 0,
        t > 0,
    ensures
        a / t + b / t <= (a + b) / t,
{
    vstd::arithmetic::div_mod::lemma_fundamental_div_mod(a, t);
    vstd::arithmetic::div_mod::lemma_fundamental_div_mod(b, t);
    vstd::arithmetic::div_mod::lemma_fundamental_div_mod(a + b, t);
    vstd::arithmetic::div_mod::lemma_mod_bound(a, t);
    vstd::arithmetic::div_mod::lemma_mod_bound(b, t);
    vstd::arithmetic::div_mod::lemma_mod_bound(a + b, t);
    assert(t * (a / t) + t * (b / t) <= t * ((a + b) / t) + t - 1);
    assert((a / t + b / t) < (a + b) / t + 1) by (nonlinear_arith)
        requires
            t * (a / t) + t * (b / t) <= t * ((a + b) / t) + t - 1,
            t > 0,
    {
        assert(t * (a / t + b / t) < t * ((a + b) / t + 1));
    }
}

/// The status-class shares never add up to more than 100 %.
pub proof fn law_status_shares_at_most_100(c: ProxyCounters)
    requires
        status_total(c) <= u64::MAX,
    ensures
        share_pct(c.status_1xx, status_total(c) as u64) + share_pct(
            c.status_2xx,
            status_total(c) as u64,
        ) + share_pct(c.status_3xx, status_total(c) as u64) + share_pct(
            c.status_4xx,
            status_total(c) as u64,
        ) + share_pct(c.status_5xx, status_total(c) as u64) <= 100,
{
    let t = status_total(c);
    if t == 0 {
    } else {
        let a1 = c.status_1xx * 100;
        let a2 = c.status_2xx * 100;
        let a3 = c.status_3xx * 100;
        let a4 = c.status_4xx * 100;
        let a5 = c.status_5xx * 100;
        lemma_div_sum(a1, a2, t);
        lemma_div_sum(a1 + a2, a3, t);
        lemma_div_sum(a1 + a2 + a3, a4, t);
        lemma_div_sum(a1 + a2 + a3 + a4, a5, t);
        assert(a1 + a2 + a3 + a4 + a5 == t * 100);
        vstd::arithmetic::div_mod::lemma_div_multiples_vanish(100, t);
        assert((t * 100) / t == 100) by {
            vstd::arithmetic::mul::lemma_mul_is_commutative(t, 100);
        }
        assert(a1 / t >= 0 && a2 / t >= 0 && a3 / t >= 0 && a4 / t >= 0 && a5 / t >= 0) by {
            vstd::arithmetic::div_mod::lemma_div_pos_is_pos(a1, t);
            vstd::arithmetic::div_mod::lemma_div_pos_is_pos(a2, t);
            vstd::arithmetic::div_mod::lemma_div_pos_is_pos(a3, t);
            vstd::arithmetic::div_mod::lemma_div_pos_is_pos(a4, t);
            vstd::arithmetic::div_mod::lemma_div_pos_is_pos(a5, t);
        }
    }
}


/// A line of a Prometheus exposition page, with the number its last word
/// reads as, cut down to a whole number (0 when it is not a number).
pub struct MetricLine {
    pub text: String,
    pub value: u64,
}

pub open spec fn metric_views(ls: Seq<MetricLine>) -> Seq<(Seq<char>, u64)> {
    ls.map_values(|m: MetricLine| (m.text@, m.value))
}

/// The status class (1 to 5) named by the first digit of a sample's `code`
/// label, or 0 when there is none.
pub open spec fn code_class(line: Seq<char>) -> int {
    match label_value(line, "code"@) {
        Some(code) => if code.len() == 0 {
            0
        } else if code[0] == '1' {
            1
        } else if code[0] == '2' {
            2
        } else if code[0] == '3' {
            3
        } else if code[0] == '4' {
            4
        } else if code[0] == '5' {
            5
        } else {
            0
        },
        None => 0,
    }
}

/// What Traefik's metrics page adds up to: the requests of each status
/// class (first five), and the open connections, each sample cut to 32 bits
/// (last). Comment lines are skipped.
pub open spec fn traefik_tally(ls: Seq<(Seq<char>, u64)>) -> (int, int, int, int, int, int)
    decreases ls.len(),
{
    if ls.len() == 0 {
        (0, 0, 0, 0, 0, 0)
    } else {
        let t = traefik_tally(ls.drop_last());
        let l = ls.last().0;
        let v = ls.last().1 as int;
        if starts_with(l, "#"@) {
            t
        } else if contains(l, "traefik_entrypoint_requests_total"@) {
            let k = code_class(l);
            (
                t.0 + if k == 1 { v } else { 0 },
                t.1 + if k == 2 { v } else { 0 },
                t.2 + if k == 3 { v } else { 0 },
                t.3 + if k == 4 { v } else { 0 },
                t.4 + if k == 5 { v } else { 0 },
                t.5,
            )
        } else if contains(l, "traefik_entrypoint_open_connections"@) {
            (t.0, t.1, t.2, t.3, t.4, t.5 + (ls.last().1 as u32) as int)
        } else {
            t
        }
    }
}

/// The tally never shrinks as lines are added.
proof fn lemma_traefik_tally_grows(ls: Seq<(Seq<char>, u64)>, i: int, j: int)
    requires
        0 <= i <= j <= ls.len(),
    ensures
        traefik_tally(ls.take(i)).0 <= traefik_tally(ls.take(j)).0,
        traefik_tally(ls.take(i)).1 <= traefik_tally(ls.take(j)).1,
        traefik_tally(ls.take(i)).2 <= traefik_tally(ls.take(j)).2,
        traefik_tally(ls.take(i)).3 <= traefik_tally(ls.take(j)).3,
        traefik_tally(ls.take(i)).4 <= traefik_tally(ls.take(j)).4,
        traefik_tally(ls.take(i)).5 <= traefik_tally(ls.take(j)).5,
        0 <= traefik_tally(ls.take(i)).0,
        0 <= traefik_tally(ls.take(i)).1,
        0 <= traefik_tally(ls.take(i)).2,
        0 <= traefik_tally(ls.take(i)).3,
        0 <= traefik_tally(ls.take(i)).4,
        0 <= traefik_tally(ls.take(i)).5,
    decreases j,
{
    if j > i {
        lemma_traefik_tally_grows(ls, i, j - 1);
        assert(ls.take(j).drop_last() =~= ls.take(j - 1));
    } else if i > 0 {
        lemma_traefik_tally_grows(ls, i - 1, i - 1);
        assert(ls.take(i).drop_last() =~= ls.take(i - 1));
    }
}

/// The counters Traefik's metrics page reports: requests by status class,
/// their sum, and open connections. `None` when a sum does not fit its
/// counter.
pub fn count_traefik(lines: &Vec<MetricLine>) -> (r: Option<ProxyCounters>)
    ensures
        ({
            let t = traefik_tally(metric_views(lines@));
            &&& r is Some <==> (t.0 + t.1 + t.2 + t.3 + t.4 <= u64::MAX && t.5 <= u32::MAX)
            &&& r is Some ==> r->0 == (ProxyCounters {
                active_connections: t.5 as u32,
                requests_total: (t.0 + t.1 + t.2 + t.3 + t.4) as u64,
                status_1xx: t.0 as u64,
                status_2xx: t.1 as u64,
                status_3xx: t.2 as u64,
                status_4xx: t.3 as u64,
                status_5xx: t.4 as u64,
                reading: 0,
                writing: 0,
                waiting: 0,
                busy_workers: 0,
                idle_workers: 0,
            })
        }),
{
    let ghost ls = metric_views(lines@);
    let requests = chars_of("traefik_entrypoint_requests_total");
    let open = chars_of("traefik_entrypoint_open_connections");
    let hash = chars_of("#");
    let mut c: [u64; 5] = [0, 0, 0, 0, 0];
    let mut conns: u32 = 0;
    let mut i: usize = 0;
    while i < lines.len()
        invariant
            i <= lines@.len(),
            ls == metric_views(lines@),
            requests@ == "traefik_entrypoint_requests_total"@,
            open@ == "traefik_entrypoint_open_connections"@,
            hash@ == "#"@,
            ({
                let t = traefik_tally(ls.take(i as int));
                &&& c@[0] == t.0 && c@[1] == t.1 && c@[2] == t.2 && c@[3] == t.3 && c@[4] == t.4
                &&& conns == t.5
            }),
            c@.len() == 5,
        decreases lines.len() - i,
    {
        proof {
            assert(ls.take(i + 1).drop_last() =~= ls.take(i as int));
            assert(ls.take(i + 1).last() == ls[i as int]);
            lemma_traefik_tally_grows(ls, i + 1, ls.len() as int);
            assert(ls.take(ls.len() as int) =~= ls);
        }
        let line = &lines[i];
        let v = line.value;
        let lc = chars_of(line.text.as_str());
        if starts_with_chars(lc.as_slice(), hash.as_slice()) {
        } else if contains_chars(lc.as_slice(), requests.as_slice()) {
            let k: usize = match extract_label(line.text.as_str(), "code") {
                Some(code) => {
                    let cc = chars_of(code.as_str());
                    if cc.len() == 0 {
                        0
                    } else if cc[0] == '1' {
                        1
                    } else if cc[0] == '2' {
                        2
                    } else if cc[0] == '3' {
                        3
                    } else if cc[0] == '4' {
                        4
                    } else if cc[0] == '5' {
                        5
                    } else {
                        0
                    }
                },
                None => 0,
            };
            assert(k == code_class(ls[i as int].0));
            if k > 0 {
                match c[k - 1].checked_add(v) {
                    Some(x) => {
                        c[k - 1] = x;
                    },
                    None => {
                        return None;
                    },
                }
            }
        } else if contains_chars(lc.as_slice(), open.as_slice()) {
            match conns.checked_add(v as u32) {
                Some(x) => {
                    conns = x;
                },
                None => {
                    return None;
                },
            }
        }
        i += 1;
    }
    proof {
        assert(ls.take(i as int) =~= ls);
    }
    let s01 = c[0].checked_add(c[1]);
    let s012 = match s01 {
        Some(x) => x.checked_add(c[2]),
        None => None,
    };
    let s0123 = match s012 {
        Some(x) => x.checked_add(c[3]),
        None => None,
    };
    let total = match s0123 {
        Some(x) => x.checked_add(c[4]),
        None => None,
    };
    match total {
        None => None,
        Some(t) => Some(
            ProxyCounters {
                active_connections: conns,
                requests_total: t,
                status_1xx: c[0],
                status_2xx: c[1],
                status_3xx: c[2],
                status_4xx: c[3],
                status_5xx: c[4],
                reading: 0,
                writing: 0,
                waiting: 0,
                busy_workers: 0,
                idle_workers: 0,
            },
        ),
    }
}

/// How many samples each proxy history keeps: an hour at one a second.
pub const PROXY_HISTORY_LEN: usize = 3600;

/// The proxy panel's integer histories: open connections, and the share in
/// percent of each status class (1xx to 5xx), each keeping the last
/// `PROXY_HISTORY_LEN` samples.
pub struct ProxyHistory {
    pub connections: VecDeque<u64>,
    pub shares: [VecDeque<u64>; 5],
}

impl ProxyHistory {
    pub open spec fn wf(&self) -> bool {
        &&& self.connections@.len() <= PROXY_HISTORY_LEN
        &&& forall|k: int| 0 <= k < 5 ==> (#[trigger] self.shares@[k])@.len() <= PROXY_HISTORY_LEN
    }

    /// Empty histories.
    pub fn new() -> (h: Self)
        ensures
            h.wf(),
            h.connections@ == Seq::<u64>::empty(),
            forall|k: int| 0 <= k < 5 ==> (#[trigger] h.shares@[k])@ == Seq::<u64>::empty(),
    {
        let h = ProxyHistory {
            connections: VecDeque::new(),
            shares: [VecDeque::new(), VecDeque::new(), VecDeque::new(), VecDeque::new(), VecDeque::new()],
        };
        assert forall|k: int| 0 <= k < 5 implies (#[trigger] h.shares@[k])@ == Seq::<u64>::empty() by {
            assert(h.shares@[k] == h.shares[k]);
        }
        h
    }

    /// Records one poll: the open connections and the five status shares
    /// (see `status_shares`); the oldest sample of each goes once a history
    /// is full.
    pub fn push_sample(&mut self, c: &ProxyCounters)
        requires
            old(self).wf(),
            status_total(*c) <= u64::MAX,
        ensures
            final(self).wf(),
            final(self).connections@ == bounded_push(
                old(self).connections@,
                c.active_connections as u64,
                PROXY_HISTORY_LEN as nat,
            ),
            forall|k: int|
                0 <= k < 5 ==> (#[trigger] final(self).shares@[k])@ == bounded_push(
                    old(self).shares@[k]@,
                    share_pct(
                        seq![c.status_1xx, c.status_2xx, c.status_3xx, c.status_4xx, c.status_5xx][k],
                        status_total(*c) as u64,
                    ),
                    PROXY_HISTORY_LEN as nat,
                ),
    {
        let shares = status_shares(c);
        push_capped(&mut self.connections, c.active_connections as u64, PROXY_HISTORY_LEN);
        let ghost before = self.shares@;
        let mut k: usize = 0;
        while k < 5
            invariant
                k <= 5,
                shares@ == seq![
                    share_pct(c.status_1xx, status_total(*c) as u64),
                    share_pct(c.status_2xx, status_total(*c) as u64),
                    share_pct(c.status_3xx, status_total(*c) as u64),
                    share_pct(c.status_4xx, status_total(*c) as u64),
                    share_pct(c.status_5xx, status_total(*c) as u64),
                ],
                self.connections@ == bounded_push(
                    old(self).connections@,
                    c.active_connections as u64,
                    PROXY_HISTORY_LEN as nat,
                ),
                self.connections@.len() <= PROXY_HISTORY_LEN,
                forall|j: int| 0 <= j < 5 ==> (#[trigger] before[j])@.len() <= PROXY_HISTORY_LEN,
                forall|j: int| 0 <= j < k ==> (#[trigger] self.shares@[j])@.len() <= PROXY_HISTORY_LEN,
                forall|j: int| k <= j < 5 ==> #[trigger] self.shares@[j] == before[j],
                forall|j: int|
                    0 <= j < k ==> (#[trigger] self.shares@[j])@ == bounded_push(
                        before[j]@,
                        shares@[j],
                        PROXY_HISTORY_LEN as nat,
                    ),
            decreases 5 - k,
        {
            assert(self.shares@[k as int] == before[k as int]);
            push_capped(&mut self.shares[k], shares[k], PROXY_HISTORY_LEN);
            k += 1;
        }
        assert forall|j: int| 0 <= j < 5 implies shares@[j] == share_pct(
            seq![c.status_1xx, c.status_2xx, c.status_3xx, c.status_4xx, c.status_5xx][j],
            status_total(*c) as u64,
        ) by {}
    }
}

} // verus!
