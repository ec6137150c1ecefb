//! Text of the process and container detail views.
use vstd::prelude::*;
use crate::collectors::node_runtime::{decimal, decimal_chars};
use crate::text::{append_chars, chars_of, string_from_chars};

verus! {

/// How long something has run: seconds below a minute, minutes and seconds
/// below an hour, hours and minutes beyond.
pub open spec fn uptime_text(secs: nat) -> Seq<char> {
    if secs < 60 {
        decimal(secs) + "s"@
    } else if secs < 3600 {
        decimal(secs / 60) + "m "@ + decimal(secs % 60) + "s"@
    } else {
        decimal(secs / 3600) + "h "@ + decimal((secs % 3600) / 60) + "m"@
    }
}

/// `42s`, `2m 5s`, `3h 12m`.
pub fn format_uptime(secs: u64) -> (r: String)
    ensures
        r@ == uptime_text(secs as nat),
{
    let mut out: Vec<char>;
    if secs < 60 {
        out = decimal_chars(secs);
        append_chars(&mut out, chars_of("s").as_slice());
    } else if secs < 3600 {
        out = decimal_chars(secs / 60);
        append_chars(&mut out, chars_of("m ").as_slice());
        append_chars(&mut out, decimal_chars(secs % 60).as_slice());
        append_chars(&mut out, chars_of("s").as_slice());
    } else {
        out = decimal_chars(secs / 3600);
        append_chars(&mut out, chars_of("h ").as_slice());
        append_chars(&mut out, decimal_chars((secs % 3600) / 60).as_slice());
        append_chars(&mut out, chars_of("m").as_slice());
    }
    string_from_chars(out.as_slice())
}

} // verus!
