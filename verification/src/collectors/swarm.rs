//! Docker Swarm panel: whether there is anything to list, the rows of
//! services and nodes from what the engine reports, their order, and the
//! body of the raw `/nodes` response read from the engine's socket
//! (including chunked transfer decoding).
use vstd::prelude::*;
use vstd::utf8::{decode_utf8, valid_utf8};
use crate::collectors::database::opt_view;
use crate::models::swarm::{SwarmData, SwarmNodeData, SwarmServiceData};
use crate::order::{is_stable_order, keys_of, stable_order, SortKey};
use crate::text::{
    before_first, before_first_chars, chars_of, contains, contains_chars, lowercase, parse_hex, parse_hex_exec,
    str_from_utf8, string_from_chars, to_lowercase, trim, trim_chars,
};

verus! {

/// A CRLF starts at index `e` of `d`.
pub open spec fn crlf_at(d: Seq<u8>, e: int) -> bool {
    0 <= e && e + 2 <= d.len() && d[e] == 13 && d[e + 1] == 10
}

/// The first CRLF at or after `from`.
pub open spec fn crlf_from(d: Seq<u8>, from: int) -> Option<int>
    decreases d.len() - from,
{
    if from < 0 || from + 2 > d.len() {
        None
    } else if crlf_at(d, from) {
        Some(from)
    } else {
        crlf_from(d, from + 1)
    }
}

/// The size a chunk-size line announces: valid UTF-8, trimmed, up to any
/// `;` extension, read as hexadecimal.
pub open spec fn chunk_size_of(line: Seq<u8>) -> Option<nat> {
    if valid_utf8(line) {
        parse_hex(before_first(trim(decode_utf8(line)), seq![';']), usize::MAX as nat)
    } else {
        None
    }
}

/// The data of the chunks starting at `pos`: `None` when a size line has no
/// CRLF or does not read; decoding stops at a zero-size chunk or at a chunk
/// that runs past the end.
pub open spec fn dechunk_from(d: Seq<u8>, pos: int) -> Option<Seq<u8>>
    decreases d.len() + 4 - pos,
{
    if pos < 0 || pos >= d.len() {
        Some(seq![])
    } else {
        match crlf_from(d, pos) {
            None => None,
            Some(e) => match chunk_size_of(d.subrange(pos, e)) {
                None => None,
                Some(n) => if n == 0 || e + 2 + n > d.len() {
                    Some(seq![])
                } else {
                    proof {
                        lemma_crlf_from(d, pos);
                    }
                    match dechunk_from(d, e + 4 + n) {
                        None => None,
                        Some(rest) => Some(d.subrange(e + 2, e + 2 + n) + rest),
                    }
                },
            },
        }
    }
}

pub proof fn lemma_crlf_from(d: Seq<u8>, from: int)
    requires
        from >= 0,
    ensures
        crlf_from(d, from) matches Some(e) ==> from <= e && crlf_at(d, e),
    decreases d.len() - from,
{
    if !(from + 2 > d.len()) && !crlf_at(d, from) {
        lemma_crlf_from(d, from + 1);
    }
}

fn crlf_from_exec(d: &[u8], from: usize) -> (r: Option<usize>)
    ensures
        r is Some <==> crlf_from(d@, from as int) is Some,
        r is Some ==> r->0 as int == crlf_from(d@, from as int)->0,
{
    let mut i = from;
    while i < d.len() && d.len() - i >= 2
        invariant
            from <= i,
            crlf_from(d@, from as int) == crlf_from(d@, i as int),
        decreases d.len() - i,
    {
        if d[i] == 13 && d[i + 1] == 10 {
            return Some(i);
        }
        i += 1;
    }
    None
}

fn bytes_between(d: &[u8], start: usize, end: usize) -> (r: Vec<u8>)
    requires
        start <= end <= d.len(),
    ensures
        r@ == d@.subrange(start as int, end as int),
{
    let mut r: Vec<u8> = Vec::new();
    let mut k = start;
    while k < end
        invariant
            start <= k <= end,
            end <= d.len(),
            r@ == d@.subrange(start as int, k as int),
        decreases end - k,
    {
        r.push(d[k]);
        k += 1;
    }
    r
}

fn chunk_size_exec(line: &[u8]) -> (r: Option<usize>)
    ensures
        r is Some <==> chunk_size_of(line@) is Some,
        r is Some ==> r->0 as nat == chunk_size_of(line@)->0,
{
    match str_from_utf8(line) {
        None => None,
        Some(s) => {
            let cs = chars_of(s);
            let t = trim_chars(cs.as_slice());
            let semi = vec![';'];
            assert(semi@ =~= seq![';']);
            let h = before_first_chars(t.as_slice(), semi.as_slice());
            match parse_hex_exec(h.as_slice(), usize::MAX as u64) {
                Some(v) => Some(v as usize),
                None => None,
            }
        },
    }
}

/// Decodes an HTTP body sent with `Transfer-Encoding: chunked`.
pub fn decode_chunked(data: &[u8]) -> (r: Option<Vec<u8>>)
    ensures
        r is Some <==> dechunk_from(data@, 0) is Some,
        r is Some ==> r->0@ == dechunk_from(data@, 0)->0,
{
    let mut out: Vec<u8> = Vec::new();
    let mut pos: usize = 0;
    while pos < data.len()
        invariant
            dechunk_from(data@, 0) == match dechunk_from(data@, pos as int) {
                Some(rest) => Some(out@ + rest),
                None => None,
            },
        decreases data.len() - pos,
    {
        proof {
            lemma_crlf_from(data@, pos as int);
        }
        let eol = match crlf_from_exec(data, pos) {
            Some(e) => e,
            None => {
                return None;
            },
        };
        let line = bytes_between(data, pos, eol);
        let chunk_size = match chunk_size_exec(line.as_slice()) {
            Some(n) => n,
            None => {
                return None;
            },
        };
        let start = eol + 2;
        if chunk_size == 0 || chunk_size > data.len() - start {
            assert(dechunk_from(data@, pos as int) == Some(Seq::<u8>::empty()));
            assert(out@ + Seq::<u8>::empty() =~= out@);
            return Some(out);
        }
        let end = start + chunk_size;
        let piece = bytes_between(data, start, end);
        let ghost old_out = out@;
        let mut k: usize = 0;
        while k < piece.len()
            invariant
                k <= piece.len(),
                out@ == old_out + piece@.take(k as int),
            decreases piece.len() - k,
        {
            out.push(piece[k]);
            k += 1;
            assert(out@ =~= old_out + piece@.take(k as int));
        }
        assert(piece@.take(piece.len() as int) =~= piece@);
        if end > data.len() - 2 {
            assert(dechunk_from(data@, end + 2) == Some(Seq::<u8>::empty()));
            assert(out@ + Seq::<u8>::empty() =~= out@);
            return Some(out);
        }
        pos = end + 2;
        proof {
            let rest = dechunk_from(data@, pos as int);
            if rest is Some {
                assert(old_out + (piece@ + rest->0) =~= out@ + rest->0);
            }
        }
    }
    assert(out@ + Seq::<u8>::empty() =~= out@);
    Some(out)
}

/// `char::to_uppercase` of `c`, as a string.
pub uninterp spec fn uppercase_of(c: char) -> Seq<char>;

/// `char::to_uppercase`, collected into a string. Besides naming the
/// result, the contract states the ASCII part of the Unicode mapping: a
/// lowercase ASCII letter becomes its capital, any other ASCII character
/// stays as it is.
#[verifier::external_body]
fn char_to_uppercase(c: char) -> (r: String)
    ensures
        r@ == uppercase_of(c),
        97 <= c as u32 <= 122 ==> r@ == seq![((c as u32) - 32) as char],
        c as u32 <= 127 && !(97 <= c as u32 <= 122) ==> r@ == seq![c],
{
    c.to_uppercase().collect()
}

/// The string with its first character in upper case.
pub open spec fn capitalized(s: Seq<char>) -> Seq<char> {
    if s.len() == 0 {
        seq![]
    } else {
        uppercase_of(s[0]) + s.drop_first()
    }
}

/// Upper-cases the first character of a string (`active` → `Active`).
pub fn capitalize(s: &str) -> (r: String)
    ensures
        r@ == capitalized(s@),
        s@.len() > 0 && 97 <= s@[0] as u32 <= 122 ==> r@ == seq![((s@[0] as u32) - 32) as char]
            + s@.drop_first(),
{
    let cs = chars_of(s);
    if cs.len() == 0 {
        return String::new();
    }
    let first = char_to_uppercase(cs[0]);
    let fc = chars_of(first.as_str());
    let mut out = fc;
    let mut k: usize = 1;
    while k < cs.len()
        invariant
            1 <= k <= cs.len(),
            cs@ == s@,
            out@ == uppercase_of(s@[0]) + s@.subrange(1, k as int),
        decreases cs.len() - k,
    {
        out.push(cs[k]);
        k += 1;
        assert(out@ =~= uppercase_of(s@[0]) + s@.subrange(1, k as int));
    }
    assert(s@.subrange(1, s@.len() as int) =~= s@.drop_first());
    string_from_chars(out.as_slice())
}

/// The image reference without its `@digest`.
pub open spec fn image_without_digest(image: Seq<char>) -> Seq<char> {
    before_first(image, seq!['@'])
}

/// Drops the `@sha256:...` digest from an image reference.
pub fn strip_image_digest(image: &str) -> (r: String)
    ensures
        r@ == image_without_digest(image@),
{
    let cs = chars_of(image);
    let at = vec!['@'];
    assert(at@ =~= seq!['@']);
    let head = before_first_chars(cs.as_slice(), at.as_slice());
    string_from_chars(head.as_slice())
}

/// The first `n` characters of a string (all of it when shorter).
pub open spec fn first_chars(s: Seq<char>, n: nat) -> Seq<char> {
    if s.len() <= n {
        s
    } else {
        s.take(n as int)
    }
}

/// The short form of an object ID: its first 12 characters.
pub fn short_id(id: &str) -> (r: String)
    ensures
        r@ == first_chars(id@, 12),
{
    let cs = chars_of(id);
    let n = if cs.len() < 12 {
        cs.len()
    } else {
        12
    };
    let head = crate::text::slice_chars(cs.as_slice(), 0, n);
    assert(head@ =~= first_chars(id@, 12));
    string_from_chars(head.as_slice())
}


/// What the engine reports of a service, each field as found.
pub struct ServiceReport {
    pub id: Option<String>,
    pub name: Option<String>,
    pub image: Option<String>,
    pub running_tasks: Option<u64>,
    pub desired_tasks: Option<u64>,
    /// Replicas requested by a replicated service's spec.
    pub replicas: Option<i64>,
}

pub open spec fn text_or_empty(o: Option<String>) -> Seq<char> {
    match o {
        Some(s) => s@,
        None => Seq::empty(),
    }
}

fn owned_or_empty(o: &Option<String>) -> (r: String)
    ensures
        r@ == text_or_empty(*o),
{
    match o {
        Some(s) => s.clone(),
        None => String::new(),
    }
}

/// The service row: missing texts empty, the image without its digest,
/// missing running tasks as 0, and missing desired tasks taken from the
/// requested replicas (0 when none are requested).
pub fn service_data(r: &ServiceReport) -> (d: SwarmServiceData)
    ensures
        d.id@ == text_or_empty(r.id),
        d.name@ == text_or_empty(r.name),
        d.image@ == image_without_digest(text_or_empty(r.image)),
        d.replicas_running == (match r.running_tasks {
            Some(v) => v,
            None => 0,
        }),
        d.replicas_desired == (match r.desired_tasks {
            Some(v) => v,
            None => match r.replicas {
                Some(v) => v as u64,
                None => 0,
            },
        }),
        d.restart_count == 0,
{
    let image = owned_or_empty(&r.image);
    SwarmServiceData {
        id: owned_or_empty(&r.id),
        name: owned_or_empty(&r.name),
        replicas_running: match r.running_tasks {
            Some(v) => v,
            None => 0,
        },
        replicas_desired: match r.desired_tasks {
            Some(v) => v,
            None => match r.replicas {
                Some(v) => v as u64,
                None => 0,
            },
        },
        image: strip_image_digest(image.as_str()),
        restart_count: 0,
    }
}

pub open spec fn service_name_keys(v: Seq<SwarmServiceData>) -> Seq<(Seq<char>, u64)> {
    v.map_values(|d: SwarmServiceData| (d.name@, 0u64))
}

/// The order in which services are listed: by name, equal names in the
/// order the engine gave them.
pub fn service_order(services: &Vec<SwarmServiceData>) -> (order: Vec<usize>)
    ensures
        is_stable_order(
            service_name_keys(services@),
            true,
            Seq::new(services@.len(), |i: int| true),
            order@,
        ),
{
    let mut keys: Vec<SortKey> = Vec::new();
    let mut keep: Vec<bool> = Vec::new();
    let mut i: usize = 0;
    while i < services.len()
        invariant
            i <= services@.len(),
            keys@.len() == i,
            keep@.len() == i,
            forall|k: int| 0 <= k < i ==> #[trigger] keys_of(keys@)[k] == service_name_keys(services@)[k],
            forall|k: int| 0 <= k < i ==> #[trigger] keep@[k],
        decreases services.len() - i,
    {
        let key = SortKey { text: chars_of(services[i].name.as_str()), number: 0 };
        let ghost old_keys = keys@;
        keys.push(key);
        keep.push(true);
        proof {
            assert forall|k: int| 0 <= k < i + 1 implies #[trigger] keys_of(keys@)[k] == service_name_keys(services@)[k] by {
                assert(keys_of(keys@)[k] == crate::order::key_of(keys@[k]));
                if k < i {
                    assert(keys@[k] == old_keys[k]);
                    assert(keys_of(old_keys)[k] == crate::order::key_of(old_keys[k]));
                }
            }
        }
        i += 1;
    }
    assert(keys_of(keys@) =~= service_name_keys(services@));
    assert(keep@ =~= Seq::new(services@.len(), |i: int| true));
    stable_order(&keys, &keep, true)
}

/// What the engine reports of a node, each field as found; states, roles
/// and availabilities in the engine's lowercase words.
pub struct NodeReport {
    pub id: Option<String>,
    pub hostname: Option<String>,
    pub state: Option<String>,
    pub role: Option<String>,
    pub availability: Option<String>,
}

pub open spec fn word_or(o: Option<String>, default: Seq<char>) -> Seq<char> {
    match o {
        Some(s) => s@,
        None => default,
    }
}

fn word_or_exec(o: &Option<String>, default: &str) -> (r: String)
    ensures
        r@ == word_or(*o, default@),
{
    match o {
        Some(s) => s.clone(),
        None => string_from_chars(chars_of(default).as_slice()),
    }
}

/// The node row: the short ID, the host name, and the state, role and
/// availability capitalised, read as `unknown`, `worker` and `active` when
/// missing.
pub fn node_data(r: &NodeReport) -> (d: SwarmNodeData)
    ensures
        d.id@ == first_chars(text_or_empty(r.id), 12),
        d.hostname@ == text_or_empty(r.hostname),
        d.status@ == capitalized(word_or(r.state, "unknown"@)),
        d.role@ == capitalized(word_or(r.role, "worker"@)),
        d.availability@ == capitalized(word_or(r.availability, "active"@)),
{
    let id = owned_or_empty(&r.id);
    let state = word_or_exec(&r.state, "unknown");
    let role = word_or_exec(&r.role, "worker");
    let availability = word_or_exec(&r.availability, "active");
    SwarmNodeData {
        id: short_id(id.as_str()),
        hostname: owned_or_empty(&r.hostname),
        status: capitalize(state.as_str()),
        role: capitalize(role.as_str()),
        availability: capitalize(availability.as_str()),
    }
}

/// A node report as plain values: ID, host name, state, role and
/// availability.
pub type NodeReportView = (Option<Seq<char>>, Option<Seq<char>>, Option<Seq<char>>, Option<Seq<char>>, Option<Seq<char>>);

impl NodeReport {
    pub open spec fn view(&self) -> NodeReportView {
        (opt_view(self.id), opt_view(self.hostname), opt_view(self.state), opt_view(self.role), opt_view(self.availability))
    }
}

/// The nodes that a `/nodes` response body lists, each read as its ID, host
/// name, state, role and availability (the last three in the engine's
/// words); empty when the body does not deserialize as a list of nodes.
pub uninterp spec fn node_reports_of(body: Seq<u8>) -> Seq<NodeReportView>;

/// `serde_json::from_slice` into bollard's `Vec<Node>` (empty when that
/// fails), each node read field by field, its state, role and availability
/// written out with their `Display` texts. The result is claimed to be
/// `node_reports_of` the body, a function of it alone.
#[verifier::external_body]
fn parse_node_reports(body: &[u8]) -> (r: Vec<NodeReport>)
    ensures
        r@.len() == node_reports_of(body@).len(),
        forall|k: int| 0 <= k < r@.len() ==> (#[trigger] r@[k]).view() == node_reports_of(body@)[k],
{
    let nodes: Vec<bollard::models::Node> = serde_json::from_slice(body).unwrap_or_default();
    nodes.iter().map(|n| NodeReport {
        id: n.id.clone(),
        hostname: n.description.as_ref().and_then(|d| d.hostname.clone()),
        state: n.status.as_ref().and_then(|v| v.state).map(|v| format!("{v}")),
        role: n.spec.as_ref().and_then(|v| v.role).map(|v| format!("{v}")),
        availability: n.spec.as_ref().and_then(|v| v.availability).map(|v| format!("{v}")),
    }).collect()
}

pub open spec fn view_or(o: Option<Seq<char>>, default: Seq<char>) -> Seq<char> {
    match o {
        Some(s) => s,
        None => default,
    }
}

/// A node row as plain values: ID, host name, status, role, availability.
pub type NodeRowView = (Seq<char>, Seq<char>, Seq<char>, Seq<char>, Seq<char>);

pub open spec fn node_row_of(d: SwarmNodeData) -> NodeRowView {
    (d.id@, d.hostname@, d.status@, d.role@, d.availability@)
}

/// The row `node_data` makes of a report.
pub open spec fn node_row(v: NodeReportView) -> NodeRowView {
    (
        first_chars(view_or(v.0, seq![]), 12),
        view_or(v.1, seq![]),
        capitalized(view_or(v.2, "unknown"@)),
        capitalized(view_or(v.3, "worker"@)),
        capitalized(view_or(v.4, "active"@)),
    )
}

/// The node reports in a raw `/nodes` response from the engine's socket:
/// those of its body (see `unix_body`), none when it has no body.
pub open spec fn reply_node_reports(reply: Seq<u8>) -> Seq<NodeReportView> {
    match unix_body(reply) {
        Some(body) => node_reports_of(body),
        None => seq![],
    }
}

/// The node rows of a raw `/nodes` response read from the engine's socket,
/// one per node it lists, in its order.
pub fn nodes_of_reply(reply: &[u8]) -> (r: Vec<SwarmNodeData>)
    ensures
        r@.len() == reply_node_reports(reply@).len(),
        forall|k: int|
            0 <= k < r@.len() ==> node_row_of(#[trigger] r@[k]) == node_row(reply_node_reports(reply@)[k]),
{
    let body = match unix_response_body(reply) {
        Some(b) => b,
        None => {
            return Vec::new();
        },
    };
    let reports = parse_node_reports(body.as_slice());
    let ghost rv = node_reports_of(body@);
    let mut rows: Vec<SwarmNodeData> = Vec::new();
    let mut i: usize = 0;
    while i < reports.len()
        invariant
            i <= reports@.len(),
            rv == reply_node_reports(reply@),
            reports@.len() == rv.len(),
            forall|k: int| 0 <= k < reports@.len() ==> (#[trigger] reports@[k]).view() == rv[k],
            rows@.len() == i,
            forall|k: int| 0 <= k < i ==> node_row_of(#[trigger] rows@[k]) == node_row(rv[k]),
        decreases reports.len() - i,
    {
        let d = node_data(&reports[i]);
        assert(reports@[i as int].view() == rv[i as int]);
        assert(node_row_of(d) == node_row(rv[i as int]));
        rows.push(d);
        i += 1;
    }
    rows
}

/// What asking the engine about the swarm gave.
pub enum EngineState {
    /// No engine could be reached.
    Unreachable,
    /// The engine did not answer the information request; the text says why.
    InfoFailed(String),
    /// Whether this node's swarm membership is active and whether it can
    /// manage the swarm.
    Answered { active: bool, manager: bool },
}

/// Whether the swarm panel shows the engine as available, and its message,
/// when there is nothing to list; `None` when the node is an active manager.
pub open spec fn gate_message(e: EngineState) -> Option<(bool, Seq<char>)> {
    match e {
        EngineState::Unreachable => Some((false, "Docker no disponible"@)),
        EngineState::InfoFailed(msg) => Some((false, "Error de Docker: "@ + msg@)),
        EngineState::Answered { active, manager } => if active && manager {
            None
        } else {
            Some((true, "Este nodo no es Swarm Manager"@))
        },
    }
}

/// The swarm panel when there is nothing to list: no engine, an engine
/// error, or a node that is not an active manager; `None` when the services
/// and nodes are to be listed.
pub fn swarm_gate(e: &EngineState) -> (r: Option<SwarmData>)
    ensures
        r is Some <==> gate_message(*e) is Some,
        r is Some ==> ({
            let d = r->0;
            let (available, text) = gate_message(*e)->0;
            &&& d.available == available
            &&& !d.is_manager
            &&& d.message is Some && d.message->0@ == text
            &&& d.services@.len() == 0 && d.nodes@.len() == 0
        }),
{
    match e {
        EngineState::Unreachable => Some(
            SwarmData {
                is_manager: false,
                available: false,
                message: Some(string_from_chars(chars_of("Docker no disponible").as_slice())),
                services: Vec::new(),
                nodes: Vec::new(),
            },
        ),
        EngineState::InfoFailed(msg) => {
            let mut m = chars_of("Error de Docker: ");
            let mc = chars_of(msg.as_str());
            crate::text::append_chars(&mut m, mc.as_slice());
            Some(
                SwarmData {
                    is_manager: false,
                    available: false,
                    message: Some(string_from_chars(m.as_slice())),
                    services: Vec::new(),
                    nodes: Vec::new(),
                },
            )
        },
        EngineState::Answered { active, manager } => {
            if *active && *manager {
                None
            } else {
                Some(
                    SwarmData {
                        is_manager: false,
                        available: true,
                        message: Some(string_from_chars(chars_of("Este nodo no es Swarm Manager").as_slice())),
                        services: Vec::new(),
                        nodes: Vec::new(),
                    },
                )
            }
        },
    }
}

/// The swarm panel of a manager: the services and nodes listed, or, when
/// the services could not be listed, the engine's reason.
pub fn swarm_listing(listed: Result<(Vec<SwarmServiceData>, Vec<SwarmNodeData>), String>) -> (d: SwarmData)
    ensures
        d.available && d.is_manager,
        match listed {
            Ok((services, nodes)) => d.message is None && d.services@ == services@ && d.nodes@ == nodes@,
            Err(e) => d.message is Some && d.message->0@ == "Error listando servicios: "@ + e@ && d.services@.len() == 0
                && d.nodes@.len() == 0,
        },
{
    match listed {
        Ok((services, nodes)) => SwarmData { is_manager: true, available: true, message: None, services, nodes },
        Err(e) => {
            let mut m = chars_of("Error listando servicios: ");
            let ec = chars_of(e.as_str());
            crate::text::append_chars(&mut m, ec.as_slice());
            SwarmData {
                is_manager: true,
                available: true,
                message: Some(string_from_chars(m.as_slice())),
                services: Vec::new(),
                nodes: Vec::new(),
            }
        },
    }
}


/// An empty line, CRLF CRLF, starts at index `i` of `d`.
pub open spec fn blank_line_at(d: Seq<u8>, i: int) -> bool {
    0 <= i && i + 4 <= d.len() && d[i] == 13 && d[i + 1] == 10 && d[i + 2] == 13 && d[i + 3] == 10
}

/// The first empty line at or after `from`.
pub open spec fn blank_line_from(d: Seq<u8>, from: int) -> Option<int>
    decreases d.len() - from,
{
    if from < 0 || from + 4 > d.len() {
        None
    } else if blank_line_at(d, from) {
        Some(from)
    } else {
        blank_line_from(d, from + 1)
    }
}

proof fn lemma_blank_line_from(d: Seq<u8>, from: int)
    requires
        from >= 0,
    ensures
        blank_line_from(d, from) matches Some(e) ==> from <= e && blank_line_at(d, e),
    decreases d.len() - from,
{
    if !(from + 4 > d.len()) && !blank_line_at(d, from) {
        lemma_blank_line_from(d, from + 1);
    }
}

/// The body of a raw HTTP response read from the engine's socket: what
/// follows the first empty line, decoded from chunks when the header (valid
/// UTF-8, in any letter case) announces a chunked transfer. `None` without
/// an empty line, with a header that is not UTF-8, or with chunks that do
/// not decode.
pub open spec fn unix_body(d: Seq<u8>) -> Option<Seq<u8>> {
    match blank_line_from(d, 0) {
        None => None,
        Some(sep) => if !valid_utf8(d.take(sep)) {
            None
        } else {
            let body = d.skip(sep + 4);
            if contains(lowercase(decode_utf8(d.take(sep))), "transfer-encoding: chunked"@) {
                dechunk_from(body, 0)
            } else {
                Some(body)
            }
        },
    }
}

fn blank_line_exec(d: &[u8]) -> (r: Option<usize>)
    ensures
        r is Some <==> blank_line_from(d@, 0) is Some,
        r is Some ==> r->0 as int == blank_line_from(d@, 0)->0,
{
    let n = d.len();
    let mut i: usize = 0;
    while n >= 4 && i <= n - 4
        invariant
            n == d@.len(),
            blank_line_from(d@, 0) == blank_line_from(d@, i as int),
        decreases n - i,
    {
        if d[i] == 13 && d[i + 1] == 10 && d[i + 2] == 13 && d[i + 3] == 10 {
            return Some(i);
        }
        i += 1;
    }
    None
}

/// The body of a response read from the engine's socket (see `unix_body`).
pub fn unix_response_body(buf: &[u8]) -> (r: Option<Vec<u8>>)
    ensures
        r is Some <==> unix_body(buf@) is Some,
        r is Some ==> r->0@ == unix_body(buf@)->0,
{
    let n = buf.len();
    proof {
        lemma_blank_line_from(buf@, 0);
    }
    let sep = match blank_line_exec(buf) {
        None => {
            return None;
        },
        Some(s) => s,
    };
    assert(blank_line_from(buf@, 0) == Some(sep as int));
    let head = bytes_between(buf, 0, sep);
    assert(head@ =~= buf@.take(sep as int));
    let body = bytes_between(buf, sep + 4, n);
    assert(body@ =~= buf@.skip(sep + 4));
    match str_from_utf8(head.as_slice()) {
        None => None,
        Some(h) => {
            let low = to_lowercase(h);
            let lc = chars_of(low.as_str());
            let pat = chars_of("transfer-encoding: chunked");
            if contains_chars(lc.as_slice(), pat.as_slice()) {
                decode_chunked(body.as_slice())
            } else {
                Some(body)
            }
        },
    }
}

} // verus!
