//! The part of a minimal HTTP/1.0 exchange that the status scrapers share:
//! reading the status code and the body out of a response.
use vstd::prelude::*;
use crate::text::{
    chars_of, contains, contains_chars, find_chars, find_from, lemma_find_from_bounds, lines, parse_u16, parse_unsigned, seqs,
    slice_chars, split_lines, split_words, starts_with, starts_with_chars, string_from_chars, words,
};

verus! {

/// The status code of a response's first line: its second word as a
/// number, 0 when there is none.
pub open spec fn status_code(resp: Seq<char>) -> u16 {
    let ls = lines(resp);
    let first = if ls.len() > 0 { ls[0] } else { seq![] };
    let w = words(first);
    if w.len() >= 2 {
        match parse_unsigned(w[1], u16::MAX as nat) {
            Some(c) => c as u16,
            None => 0,
        }
    } else {
        0
    }
}

/// What a response yields: for an `HTTP/` response, `Err` with the status
/// code unless it is 200, else the text after the first blank line (all of
/// it when there is none); any other text is taken as the body itself.
pub open spec fn response_body(resp: Seq<char>) -> Result<Seq<char>, u16> {
    if starts_with(resp, "HTTP/"@) {
        let code = status_code(resp);
        if code != 200 {
            Err(code)
        } else {
            match find_from(resp, "\r\n\r\n"@, 0) {
                Some(i) => Ok(resp.skip(i + 4)),
                None => Ok(resp),
            }
        }
    } else {
        Ok(resp)
    }
}

/// Separates the body from a response, or reports a status other than 200.
pub fn http_response_body(resp: &str) -> (r: Result<String, u16>)
    ensures
        r matches Ok(b) ==> response_body(resp@) == Ok::<Seq<char>, u16>(b@),
        r matches Err(c) ==> response_body(resp@) == Err::<Seq<char>, u16>(c),
{
    let cs = chars_of(resp);
    let http = chars_of("HTTP/");
    if !starts_with_chars(cs.as_slice(), http.as_slice()) {
        return Ok(resp.to_owned());
    }
    let ls = split_lines(cs.as_slice());
    let ghost lv = seqs(ls@);
    let first: Vec<char> = if ls.len() > 0 {
        assert(ls@[0]@ == lv[0]);
        ls[0].clone()
    } else {
        Vec::new()
    };
    let w = split_words(&first);
    let code: u16 = if w.len() >= 2 {
        assert(w@[1]@ == seqs(w@)[1]);
        match parse_u16(w[1].as_slice()) {
            Some(c) => c,
            None => 0,
        }
    } else {
        0
    };
    assert(code == status_code(resp@));
    if code != 200 {
        return Err(code);
    }
    let sep = chars_of("\r\n\r\n");
    proof {
        reveal_strlit("\r\n\r\n");
    }
    match find_chars(cs.as_slice(), sep.as_slice(), 0) {
        Some(i) => {
            proof {
                lemma_find_from_bounds(cs@, sep@, 0);
            }
            let body = slice_chars(cs.as_slice(), i + 4, cs.len());
            assert(body@ =~= resp@.skip(i + 4));
            Ok(string_from_chars(body.as_slice()))
        },
        None => Ok(resp.to_owned()),
    }
}

/// The body of a response read by the inspector client: the text after the
/// first `\r\n\r\n`, else after the first `\n\n`; `None` when neither
/// separates headers from a body.
pub open spec fn loose_body(resp: Seq<char>) -> Option<Seq<char>> {
    match find_from(resp, "\r\n\r\n"@, 0) {
        Some(i) => Some(resp.skip(i + 4)),
        None => match find_from(resp, "\n\n"@, 0) {
            Some(i) => Some(resp.skip(i + 2)),
            None => None,
        },
    }
}

/// Separates the body from a response whose headers may end in bare
/// newlines.
pub fn loose_response_body(resp: &str) -> (r: Option<String>)
    ensures
        r matches Some(b) ==> loose_body(resp@) == Some(b@),
        r is None ==> loose_body(resp@) is None,
{
    let cs = chars_of(resp);
    let crlf = chars_of("\r\n\r\n");
    let lf = chars_of("\n\n");
    proof {
        reveal_strlit("\r\n\r\n");
        reveal_strlit("\n\n");
    }
    match find_chars(cs.as_slice(), crlf.as_slice(), 0) {
        Some(i) => {
            let body = slice_chars(cs.as_slice(), i + 4, cs.len());
            assert(body@ =~= resp@.skip(i + 4));
            Some(string_from_chars(body.as_slice()))
        },
        None => match find_chars(cs.as_slice(), lf.as_slice(), 0) {
            Some(i) => {
                let body = slice_chars(cs.as_slice(), i + 2, cs.len());
                assert(body@ =~= resp@.skip(i + 2));
                Some(string_from_chars(body.as_slice()))
            },
            None => None,
        },
    }
}

/// Whether a WebSocket handshake reply accepts the upgrade: it mentions the
/// status code 101.
pub fn handshake_accepted(reply: &str) -> (b: bool)
    ensures
        b == contains(reply@, "101"@),
{
    contains_chars(chars_of(reply).as_slice(), chars_of("101").as_slice())
}

} // verus!
