//! System snapshot decisions: which kind of service a process is, which
//! kind of core a CPU core is on hybrid architectures, and where a core's
//! temperature is read from.
use vstd::prelude::*;
use crate::models::{
    CoreType, DatabaseType, HttpProxyType, MessageBrokerType, NodeRuntimeType,
};
use crate::collectors::node_runtime::{decimal, decimal_chars};
use crate::text::{
    all_digits, append_chars, chars_of, contains, contains_chars, digits_value, lowercase, number_digits, parse_unsigned,
    parse_unsigned_exec, string_from_chars, to_lowercase, trim, trim_chars,
};
use crate::collectors::ports::chars_eq;

verus! {

/// The database engine a process is, by its lowercase name.
pub open spec fn database_type_from(name_lower: Seq<char>) -> Option<DatabaseType> {
    if contains(name_lower, "postgres"@) {
        Some(DatabaseType::PostgreSQL)
    } else if contains(name_lower, "mysqld"@) || contains(name_lower, "mariadbd"@) {
        Some(DatabaseType::MySqlMariaDb)
    } else {
        None
    }
}

/// The HTTP proxy a process is, by its lowercase name.
pub open spec fn proxy_type_from(name_lower: Seq<char>) -> Option<HttpProxyType> {
    if contains(name_lower, "traefik"@) {
        Some(HttpProxyType::Traefik)
    } else if contains(name_lower, "nginx"@) {
        Some(HttpProxyType::Nginx)
    } else if contains(name_lower, "httpd"@) || contains(name_lower, "apache"@) {
        Some(HttpProxyType::Apache)
    } else {
        None
    }
}

/// Process names that run on Node.js.
pub open spec fn is_node_tool_name(n: Seq<char>) -> bool {
    n == "node"@ || n == "npm"@ || n == "npx"@ || n == "pnpm"@ || n == "pnpx"@ || n == "yarn"@
        || n == "pm2"@ || n == "nest"@ || n == "tsx"@ || n == "ts-node"@ || n == "ts-node-esm"@
}

/// The JavaScript runtime a process is, by its lowercase name and its
/// executable's path.
pub open spec fn node_runtime_from(name_lower: Seq<char>, exe: Seq<char>) -> Option<NodeRuntimeType> {
    if name_lower == "bun"@ || contains(exe, "/bun"@) {
        Some(NodeRuntimeType::Bun)
    } else if name_lower == "deno"@ || contains(exe, "/deno"@) {
        Some(NodeRuntimeType::Deno)
    } else if is_node_tool_name(name_lower) || contains(exe, "/node"@) || contains(exe, "/.nvm/"@)
        || contains(exe, "/nvm/versions/"@) {
        Some(NodeRuntimeType::Node)
    } else {
        None
    }
}

/// The message broker a process is, by its lowercase name and command line.
pub open spec fn broker_type_from(name_lower: Seq<char>, cmd_lower: Seq<char>) -> Option<
    MessageBrokerType,
> {
    if contains(name_lower, "redpanda"@) {
        Some(MessageBrokerType::Redpanda)
    } else if contains(name_lower, "kafka"@) || contains(cmd_lower, "kafka"@) {
        Some(MessageBrokerType::Kafka)
    } else {
        None
    }
}

fn has(s: &[char], pat: &str) -> (b: bool)
    ensures
        b == contains(s@, pat@),
{
    contains_chars(s, chars_of(pat).as_slice())
}

fn is(s: &[char], word: &str) -> (b: bool)
    ensures
        b == (s@ == word@),
{
    chars_eq(s, chars_of(word).as_slice())
}

pub fn database_type_of(name_lower: &str) -> (r: Option<DatabaseType>)
    ensures
        r == database_type_from(name_lower@),
{
    let n = chars_of(name_lower);
    if has(n.as_slice(), "postgres") {
        Some(DatabaseType::PostgreSQL)
    } else if has(n.as_slice(), "mysqld") || has(n.as_slice(), "mariadbd") {
        Some(DatabaseType::MySqlMariaDb)
    } else {
        None
    }
}

pub fn proxy_type_of(name_lower: &str) -> (r: Option<HttpProxyType>)
    ensures
        r == proxy_type_from(name_lower@),
{
    let n = chars_of(name_lower);
    if has(n.as_slice(), "traefik") {
        Some(HttpProxyType::Traefik)
    } else if has(n.as_slice(), "nginx") {
        Some(HttpProxyType::Nginx)
    } else if has(n.as_slice(), "httpd") || has(n.as_slice(), "apache") {
        Some(HttpProxyType::Apache)
    } else {
        None
    }
}

pub fn node_runtime_of(name_lower: &str, exe_path: &str) -> (r: Option<NodeRuntimeType>)
    ensures
        r == node_runtime_from(name_lower@, exe_path@),
{
    let n = chars_of(name_lower);
    let e = chars_of(exe_path);
    let n = n.as_slice();
    let e = e.as_slice();
    if is(n, "bun") || has(e, "/bun") {
        Some(NodeRuntimeType::Bun)
    } else if is(n, "deno") || has(e, "/deno") {
        Some(NodeRuntimeType::Deno)
    } else if is(n, "node") || is(n, "npm") || is(n, "npx") || is(n, "pnpm") || is(n, "pnpx") || is(
        n,
        "yarn",
    ) || is(n, "pm2") || is(n, "nest") || is(n, "tsx") || is(n, "ts-node") || is(n, "ts-node-esm")
        || has(e, "/node") || has(e, "/.nvm/") || has(e, "/nvm/versions/") {
        Some(NodeRuntimeType::Node)
    } else {
        None
    }
}

pub fn broker_type_of(name_lower: &str, cmd_lower: &str) -> (r: Option<MessageBrokerType>)
    ensures
        r == broker_type_from(name_lower@, cmd_lower@),
{
    let n = chars_of(name_lower);
    let c = chars_of(cmd_lower);
    if has(n.as_slice(), "redpanda") {
        Some(MessageBrokerType::Redpanda)
    } else if has(n.as_slice(), "kafka") || has(c.as_slice(), "kafka") {
        Some(MessageBrokerType::Kafka)
    } else {
        None
    }
}

/// The kinds of service a process is recognised as.
#[derive(Clone, Copy, Debug)]
pub struct ServiceKinds {
    pub database_type: Option<DatabaseType>,
    pub proxy_type: Option<HttpProxyType>,
    pub node_runtime_type: Option<NodeRuntimeType>,
    pub message_broker_type: Option<MessageBrokerType>,
}

/// Recognises databases, proxies, JavaScript runtimes and message brokers
/// by a process's name (case-insensitively), executable path and command line.
pub fn detect_services(name: &str, exe_path: &str, cmd: &str) -> (r: ServiceKinds)
    ensures
        r.database_type == database_type_from(lowercase(name@)),
        r.proxy_type == proxy_type_from(lowercase(name@)),
        r.node_runtime_type == node_runtime_from(lowercase(name@), exe_path@),
        r.message_broker_type == broker_type_from(lowercase(name@), lowercase(cmd@)),
{
    let name_lower = to_lowercase(name);
    let cmd_lower = to_lowercase(cmd);
    ServiceKinds {
        database_type: database_type_of(name_lower.as_str()),
        proxy_type: proxy_type_of(name_lower.as_str()),
        node_runtime_type: node_runtime_of(name_lower.as_str(), exe_path),
        message_broker_type: broker_type_of(name_lower.as_str(), cmd_lower.as_str()),
    }
}

/// Performance cores of an Apple Silicon part by its core count.
pub open spec fn apple_p_cores(total: nat) -> nat {
    if total == 8 {
        4
    } else if total == 10 {
        6
    } else if total == 12 {
        8
    } else if total == 16 {
        12
    } else {
        total / 2
    }
}

/// The kind of core `core_id` is, by the lowercase vendor and brand texts;
/// on hybrid Intel parts with more than 8 cores the first
/// `hybrid_p_cores` cores are performance cores.
pub open spec fn core_type_spec(
    core_id: nat,
    total: nat,
    vendor: Seq<char>,
    brand: Seq<char>,
    hybrid_p_cores: nat,
) -> CoreType {
    if contains(vendor, "apple"@) || contains(brand, "apple"@) {
        if total >= 8 {
            if core_id < apple_p_cores(total) {
                CoreType::Performance
            } else {
                CoreType::Efficiency
            }
        } else {
            CoreType::Standard
        }
    } else if contains(vendor, "intel"@) || contains(vendor, "genuineintel"@) {
        if (contains(brand, "hybrid"@) || contains(brand, "12th"@) || contains(brand, "13th"@)
            || contains(brand, "14th"@)) && total > 8 {
            if core_id < hybrid_p_cores {
                CoreType::Performance
            } else {
                CoreType::Efficiency
            }
        } else {
            CoreType::Standard
        }
    } else if contains(vendor, "amd"@) || contains(vendor, "authenticamd"@) {
        CoreType::Standard
    } else {
        CoreType::Unknown
    }
}

/// Classifies a CPU core as performance, efficiency or standard.
pub fn core_type_from(
    core_id: usize,
    total_cores: usize,
    vendor_lower: &str,
    brand_lower: &str,
    hybrid_p_cores: usize,
) -> (r: CoreType)
    ensures
        r == core_type_spec(
            core_id as nat,
            total_cores as nat,
            vendor_lower@,
            brand_lower@,
            hybrid_p_cores as nat,
        ),
{
    let v = chars_of(vendor_lower);
    let b = chars_of(brand_lower);
    let v = v.as_slice();
    let b = b.as_slice();
    if has(v, "apple") || has(b, "apple") {
        if total_cores >= 8 {
            let p = if total_cores == 8 {
                4
            } else if total_cores == 10 {
                6
            } else if total_cores == 12 {
                8
            } else if total_cores == 16 {
                12
            } else {
                total_cores / 2
            };
            if core_id < p {
                CoreType::Performance
            } else {
                CoreType::Efficiency
            }
        } else {
            CoreType::Standard
        }
    } else if has(v, "intel") || has(v, "genuineintel") {
        if (has(b, "hybrid") || has(b, "12th") || has(b, "13th") || has(b, "14th")) && total_cores
            > 8 {
            if core_id < hybrid_p_cores {
                CoreType::Performance
            } else {
                CoreType::Efficiency
            }
        } else {
            CoreType::Standard
        }
    } else if has(v, "amd") || has(v, "authenticamd") {
        CoreType::Standard
    } else {
        CoreType::Unknown
    }
}


/// The files that may hold the temperature of core `core_id`, in the order
/// they are tried: the thermal zone of that number, the `hwmon` input of
/// its group of four cores, and the platform `coretemp` input.
pub open spec fn temperature_paths_of(core_id: nat) -> Seq<Seq<char>> {
    seq![
        "/sys/class/thermal/thermal_zone"@ + decimal(core_id) + "/temp"@,
        "/sys/class/hwmon/hwmon"@ + decimal(core_id / 4 + 1) + "/temp"@ + decimal(core_id % 4 + 1) + "_input"@,
        "/sys/devices/platform/coretemp."@ + decimal(core_id) + "/hwmon/hwmon*/temp"@ + decimal(core_id + 1)
            + "_input"@,
    ]
}

fn joined(parts: &Vec<Vec<char>>) -> (r: String)
    ensures
        r@ == parts@.fold_left(Seq::<char>::empty(), |acc: Seq<char>, p: Vec<char>| acc + p@),
{
    let mut out: Vec<char> = Vec::new();
    let mut i: usize = 0;
    while i < parts.len()
        invariant
            i <= parts@.len(),
            out@ == parts@.take(i as int).fold_left(Seq::<char>::empty(), |acc: Seq<char>, p: Vec<char>| acc + p@),
        decreases parts.len() - i,
    {
        proof {
            let t = parts@.take(i + 1);
            assert(t.drop_last() =~= parts@.take(i as int));
            t.lemma_fold_left_split(Seq::<char>::empty(), |acc: Seq<char>, p: Vec<char>| acc + p@, i as int);
            assert(t.subrange(0, i as int) =~= parts@.take(i as int));
            assert(t.subrange(i as int, i + 1) =~= seq![parts@[i as int]]);
            reveal_with_fuel(Seq::fold_left, 2);
        }
        append_chars(&mut out, parts[i].as_slice());
        i += 1;
    }
    assert(parts@.take(parts@.len() as int) =~= parts@);
    string_from_chars(out.as_slice())
}

/// The files that may hold the temperature of core `core_id` (see
/// `temperature_paths_of`).
pub fn temperature_paths(core_id: usize) -> (r: Vec<String>)
    requires
        core_id < usize::MAX,
    ensures
        r@.len() == 3,
        forall|i: int| 0 <= i < 3 ==> #[trigger] r@[i]@ == temperature_paths_of(core_id as nat)[i],
{
    let c = core_id as u64;
    let p0 = vec![chars_of("/sys/class/thermal/thermal_zone"), decimal_chars(c), chars_of("/temp")];
    let p1 = vec![
        chars_of("/sys/class/hwmon/hwmon"),
        decimal_chars(c / 4 + 1),
        chars_of("/temp"),
        decimal_chars(c % 4 + 1),
        chars_of("_input"),
    ];
    let p2 = vec![
        chars_of("/sys/devices/platform/coretemp."),
        decimal_chars(c),
        chars_of("/hwmon/hwmon*/temp"),
        decimal_chars(c + 1),
        chars_of("_input"),
    ];
    let s0 = joined(&p0);
    let s1 = joined(&p1);
    let s2 = joined(&p2);
    proof {
        reveal_with_fuel(Seq::fold_left, 6);
        assert(s0@ =~= temperature_paths_of(core_id as nat)[0]);
        assert(s1@ =~= temperature_paths_of(core_id as nat)[1]);
        assert(s2@ =~= temperature_paths_of(core_id as nat)[2]);
    }
    vec![s0, s1, s2]
}

/// The name of the input file of core `core_id` in a sensor directory.
pub open spec fn temperature_input_of(core_id: nat) -> Seq<char> {
    "temp"@ + decimal(core_id + 1) + "_input"@
}

pub fn temperature_input_name(core_id: usize) -> (r: String)
    requires
        core_id < usize::MAX,
    ensures
        r@ == temperature_input_of(core_id as nat),
{
    let p = vec![chars_of("temp"), decimal_chars(core_id as u64 + 1), chars_of("_input")];
    let s = joined(&p);
    proof {
        reveal_with_fuel(Seq::fold_left, 4);
        assert(s@ =~= temperature_input_of(core_id as nat));
    }
    s
}

/// Whether a hardware sensor, by its name file, reports CPU core
/// temperatures (Intel `coretemp`, AMD `k10temp` or `zenpower`).
pub open spec fn is_cpu_sensor_name(name: Seq<char>) -> bool {
    let t = trim(name);
    contains(t, "coretemp"@) || contains(t, "k10temp"@) || contains(t, "zenpower"@)
}

pub fn is_cpu_sensor(name: &str) -> (b: bool)
    ensures
        b == is_cpu_sensor_name(name@),
{
    let t = trim_chars(chars_of(name).as_slice());
    contains_chars(t.as_slice(), chars_of("coretemp").as_slice()) || contains_chars(
        t.as_slice(),
        chars_of("k10temp").as_slice(),
    ) || contains_chars(t.as_slice(), chars_of("zenpower").as_slice())
}

/// `i64::from_str`: an optional sign, then one or more ASCII digits, within
/// the range of `i64`.
pub open spec fn parse_i64_of(s: Seq<char>) -> Option<int> {
    if s.len() > 0 && s[0] == '-' {
        let d = s.drop_first();
        if d.len() > 0 && all_digits(d) && digits_value(d) <= 0x8000_0000_0000_0000 {
            Some(-(digits_value(d) as int))
        } else {
            None
        }
    } else {
        match parse_unsigned(s, i64::MAX as nat) {
            Some(v) => Some(v as int),
            None => None,
        }
    }
}

/// The reading of a temperature file, in thousandths of a degree Celsius:
/// its trimmed text as a signed whole number.
pub fn millidegrees(content: &str) -> (r: Option<i64>)
    ensures
        r is Some <==> parse_i64_of(trim(content@)) is Some,
        r is Some ==> r->0 as int == parse_i64_of(trim(content@))->0,
{
    let t = trim_chars(chars_of(content).as_slice());
    if t.len() > 0 && t[0] == '-' {
        let d = crate::text::slice_chars(t.as_slice(), 1, t.len());
        assert(d@ =~= t@.drop_first());
        if d.len() == 0 {
            return None;
        }
        assert(number_digits(d@) == d@ || d@[0] == '+');
        if d[0] == '+' {
            proof {
                assert(!crate::text::is_digit(d@[0]));
            }
            return None;
        }
        assert(number_digits(d@) =~= d@);
        match parse_unsigned_exec(d.as_slice(), 0x8000_0000_0000_0000) {
            Some(v) => {
                if v == 0x8000_0000_0000_0000 {
                    Some(i64::MIN)
                } else {
                    Some(-(v as i64))
                }
            },
            None => None,
        }
    } else {
        match parse_unsigned_exec(t.as_slice(), i64::MAX as u64) {
            Some(v) => Some(v as i64),
            None => None,
        }
    }
}

} // verus!
