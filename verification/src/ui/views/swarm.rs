//! Text helpers of the swarm view.
use vstd::prelude::*;
use crate::text::{after_last, after_last_chars, chars_of, string_from_chars};

verus! {

/// Bytes the UTF-8 encoding of `c` takes.
pub open spec fn utf8_width(c: char) -> nat {
    let u = c as u32;
    if u < 0x80 {
        1
    } else if u < 0x800 {
        2
    } else if u < 0x10000 {
        3
    } else {
        4
    }
}

/// Bytes the UTF-8 encoding of `s` takes (what `str::len` reports).
pub open spec fn utf8_len(s: Seq<char>) -> nat
    decreases s.len(),
{
    if s.len() == 0 {
        0
    } else {
        utf8_len(s.drop_last()) + utf8_width(s.last())
    }
}

proof fn lemma_utf8_len_prefix(s: Seq<char>, i: int, j: int)
    requires
        0 <= i <= j <= s.len(),
    ensures
        utf8_len(s.take(i)) + (j - i) <= utf8_len(s.take(j)),
    decreases j - i,
{
    if i < j {
        lemma_utf8_len_prefix(s, i, j - 1);
        assert(s.take(j).drop_last() =~= s.take(j - 1));
    }
}

fn utf8_width_exec(c: char) -> (w: u128)
    ensures
        w == utf8_width(c),
{
    let u = c as u32;
    if u < 0x80 {
        1
    } else if u < 0x800 {
        2
    } else if u < 0x10000 {
        3
    } else {
        4
    }
}

/// `max.saturating_sub(3)`: the bytes kept before the ellipsis.
pub open spec fn kept_bytes(max: nat) -> nat {
    if max >= 3 { (max - 3) as nat } else { 0 }
}

/// The image name without its registry path, shortened to `max` bytes with
/// `...` when longer: the first `max - 3` bytes of it, then `...`.
pub open spec fn truncated_image(image: Seq<char>, max: nat) -> Seq<char> {
    let s = after_last(image, '/');
    if utf8_len(s) <= max {
        s
    } else {
        let k = choose|k: int| 0 <= k <= s.len() && utf8_len(s.take(k)) == kept_bytes(max);
        s.take(k) + "..."@
    }
}

/// Shortens an image reference for the swarm table. Cutting inside a
/// character is not possible, so when the name is too long the cut must
/// fall between characters.
pub fn truncate_image(image: &str, max: usize) -> (r: String)
    requires
        ({
            let s = after_last(image@, '/');
            utf8_len(s) <= max || exists|k: int| 0 <= k <= s.len() && utf8_len(s.take(k)) == kept_bytes(max as nat)
        }),
    ensures
        r@ == truncated_image(image@, max as nat),
{
    let cs = chars_of(image);
    let short = after_last_chars(cs.as_slice(), '/');
    let ghost s = short@;
    let limit: u128 = max as u128;
    let mut acc: u128 = 0;
    let mut i: usize = 0;
    while i < short.len() && acc <= limit
        invariant
            i <= short@.len(),
            s == short@,
            acc == utf8_len(s.take(i as int)),
            acc <= limit + 4,
            limit == max,
        decreases short.len() - i,
    {
        assert(s.take(i + 1).drop_last() =~= s.take(i as int));
        acc = acc + utf8_width_exec(short[i]);
        i += 1;
    }
    if acc <= limit {
        assert(s.take(i as int) =~= s);
        return string_from_chars(short.as_slice());
    }
    proof {
        lemma_utf8_len_prefix(s, i as int, s.len() as int);
        assert(s.take(s.len() as int) =~= s);
    }
    let cut: u128 = if max >= 3 { (max - 3) as u128 } else { 0 };
    let ghost kk = choose|k: int| 0 <= k <= s.len() && utf8_len(s.take(k)) == kept_bytes(max as nat);
    let mut a: u128 = 0;
    let mut k: usize = 0;
    while a < cut
        invariant
            k <= short@.len(),
            s == short@,
            a == utf8_len(s.take(k as int)),
            cut == kept_bytes(max as nat),
            0 <= kk <= s.len(),
            utf8_len(s.take(kk)) == cut,
            a <= cut,
            k <= kk,
        decreases kk - k,
    {
        assert(k < kk);
        assert(k < short.len());
        assert(s.take(k + 1).drop_last() =~= s.take(k as int));
        a = a + utf8_width_exec(short[k]);
        k += 1;
        proof {
            lemma_utf8_len_prefix(s, k as int, kk);
        }
    }
    proof {
        if k < kk {
            lemma_utf8_len_prefix(s, k as int, kk);
        }
        assert(k == kk);
    }
    let mut out: Vec<char> = Vec::new();
    let mut m: usize = 0;
    while m < k
        invariant
            m <= k <= short@.len(),
            out@ == s.take(m as int),
            s == short@,
        decreases k - m,
    {
        out.push(short[m]);
        m += 1;
        assert(out@ =~= s.take(m as int));
    }
    let dots = chars_of("...");
    crate::text::append_chars(&mut out, dots.as_slice());
    string_from_chars(out.as_slice())
}

} // verus!
