//! Port discovery shared by the service monitors: a port named on a command
//! line after a flag, and the host side of a container port mapping such as
//! `0.0.0.0:5433->5432/tcp`.
use vstd::prelude::*;
use crate::text::{
    after_last, after_last_chars, before_first, before_first_chars, chars_of, contains,
    contains_chars, parse_u16, parse_unsigned, second_piece, second_piece_chars, trim, trim_chars,
};

verus! {

/// The views of a sequence of strings.
pub open spec fn string_views(s: Seq<String>) -> Seq<Seq<char>> {
    s.map_values(|p: String| p@)
}

pub open spec fn arrow() -> Seq<char> {
    seq!['-', '>']
}

/// A TCP port as `u16::from_str` reads it.
pub open spec fn parse_port(s: Seq<char>) -> Option<nat> {
    parse_unsigned(s, u16::MAX as nat)
}

/// The host port of a mapping `[ip:]host->container[/proto]`: the part before
/// the first `->`, after its last `:`, trimmed, read as a port.
pub open spec fn host_port(p: Seq<char>) -> Option<nat> {
    parse_port(trim(after_last(before_first(p, arrow()), ':')))
}

/// The container port of a mapping: the part between the first `->` and the
/// next one, before its first `/`, trimmed, read as a port.
pub open spec fn container_port(p: Seq<char>) -> Option<nat> {
    match second_piece(p, arrow()) {
        None => None,
        Some(right) => parse_port(trim(before_first(right, seq!['/']))),
    }
}

/// A mapping entry names the container port `target` (as text).
pub open spec fn maps_to(p: Seq<char>, target: Seq<char>) -> bool {
    contains(p, arrow() + target) || contains(p, arrow() + target + seq!['/', 't', 'c', 'p'])
}

/// Among `ports[i..]`, the host port of the first entry that maps to `target`
/// and whose host port reads as a port.
pub open spec fn first_host_port(ports: Seq<Seq<char>>, target: Seq<char>, i: int) -> Option<nat>
    decreases ports.len() - i,
{
    if i < 0 || i >= ports.len() {
        None
    } else if maps_to(ports[i], target) && host_port(ports[i]) is Some {
        host_port(ports[i])
    } else {
        first_host_port(ports, target, i + 1)
    }
}

pub fn arrow_chars() -> (r: Vec<char>)
    ensures
        r@ == arrow(),
{
    let r = vec!['-', '>'];
    assert(r@ =~= arrow());
    r
}

/// The host port of one mapping entry.
pub fn host_port_of(p: &[char]) -> (r: Option<u16>)
    ensures
        r is Some <==> host_port(p@) is Some,
        r is Some ==> r->0 as nat == host_port(p@)->0,
{
    let arrow = arrow_chars();
    let left = before_first_chars(p, arrow.as_slice());
    let after = after_last_chars(left.as_slice(), ':');
    let t = trim_chars(after.as_slice());
    parse_u16(t.as_slice())
}

/// The container port of one mapping entry.
pub fn container_port_of(p: &[char]) -> (r: Option<u16>)
    ensures
        r is Some <==> container_port(p@) is Some,
        r is Some ==> r->0 as nat == container_port(p@)->0,
{
    let arrow = arrow_chars();
    match second_piece_chars(p, arrow.as_slice()) {
        None => None,
        Some(right) => {
            let slash = vec!['/'];
            assert(slash@ =~= seq!['/']);
            let head = before_first_chars(right.as_slice(), slash.as_slice());
            let t = trim_chars(head.as_slice());
            parse_u16(t.as_slice())
        },
    }
}

/// Whether a mapping entry names the container port `target`.
pub fn maps_to_exec(p: &[char], target: &[char]) -> (b: bool)
    ensures
        b == maps_to(p@, target@),
{
    let mut pat = arrow_chars();
    let mut k: usize = 0;
    while k < target.len()
        invariant
            k <= target.len(),
            pat@ == arrow() + target@.take(k as int),
        decreases target.len() - k,
    {
        pat.push(target[k]);
        k += 1;
        assert(pat@ =~= arrow() + target@.take(k as int));
    }
    assert(target@.take(target.len() as int) =~= target@);
    if contains_chars(p, pat.as_slice()) {
        return true;
    }
    pat.push('/');
    pat.push('t');
    pat.push('c');
    pat.push('p');
    assert(pat@ =~= arrow() + target@ + seq!['/', 't', 'c', 'p']);
    contains_chars(p, pat.as_slice())
}

/// The first host port among `ports` mapped to the container port `target`.
pub fn find_host_port(ports: &[String], target: &[char]) -> (r: Option<u16>)
    ensures
        r is Some <==> first_host_port(string_views(ports@), target@, 0) is Some,
        r is Some ==> r->0 as nat == first_host_port(string_views(ports@), target@, 0)->0,
{
    let ghost views = string_views(ports@);
    let mut i: usize = 0;
    while i < ports.len()
        invariant
            i <= ports.len(),
            views == string_views(ports@),
            first_host_port(views, target@, 0) == first_host_port(views, target@, i as int),
        decreases ports.len() - i,
    {
        let p = chars_of(ports[i].as_str());
        assert(p@ == views[i as int]);
        if maps_to_exec(p.as_slice(), target) {
            if let Some(port) = host_port_of(p.as_slice()) {
                return Some(port);
            }
        }
        i += 1;
    }
    None
}

/// Whether two character sequences are equal.
pub fn chars_eq(a: &[char], b: &[char]) -> (r: bool)
    ensures
        r == (a@ == b@),
{
    if a.len() != b.len() {
        return false;
    }
    let mut k: usize = 0;
    while k < a.len()
        invariant
            a.len() == b.len(),
            k <= a.len(),
            forall|m: int| 0 <= m < k ==> a@[m] == b@[m],
        decreases a.len() - k,
    {
        if a[k] != b[k] {
            return false;
        }
        k += 1;
    }
    assert(a@ =~= b@);
    true
}

} // verus!
