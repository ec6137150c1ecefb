//! Character-level text utilities: whitespace, words, lines, trimming,
//! substring search and unsigned decimal parsing, each with a spec over
//! `Seq<char>` and a verified executable counterpart.
use vstd::prelude::*;
use vstd::utf8::{decode_utf8, valid_utf8};

verus! {

// ───────────────────────── conversions ─────────────────────────

/// The characters of a string slice, in order.
pub fn chars_of(s: &str) -> (v: Vec<char>)
    ensures
        v@ == s@,
{
    let mut v: Vec<char> = Vec::new();
    for c in it: s.chars()
        invariant
            v@ == it.seq().take(it.index() as int),
    {
        v.push(c);
    }
    v
}

/// Appends the characters of `src` to `dst`.
pub fn append_chars(dst: &mut Vec<char>, src: &[char])
    ensures
        final(dst)@ == old(dst)@ + src@,
{
    let ghost start = dst@;
    let mut k: usize = 0;
    while k < src.len()
        invariant
            k <= src.len(),
            dst@ == start + src@.take(k as int),
        decreases src.len() - k,
    {
        dst.push(src[k]);
        k += 1;
        assert(dst@ =~= start + src@.take(k as int));
    }
    assert(src@.take(src.len() as int) =~= src@);
}

/// `String: FromIterator<&char>`: builds a string holding exactly the given characters.
#[verifier::external_body]
pub(crate) fn string_from_chars(v: &[char]) -> (s: String)
    ensures
        s@ == v@,
{
    v.iter().collect()
}

/// `std::str::from_utf8`: the bytes as a string slice when they are valid
/// UTF-8, whose characters are then the UTF-8 decoding of the bytes.
#[verifier::external_body]
pub(crate) fn str_from_utf8(b: &[u8]) -> (r: Option<&str>)
    ensures
        r is Some <==> valid_utf8(b@),
        r matches Some(s) ==> s@ == decode_utf8(b@),
{
    std::str::from_utf8(b).ok()
}

/// `str::to_lowercase` of `s`: its Unicode lowercase mapping.
pub uninterp spec fn lowercase(s: Seq<char>) -> Seq<char>;

/// A character with an ASCII capital letter made lowercase.
pub open spec fn ascii_lower(c: char) -> char {
    if 65 <= c as u32 <= 90 {
        ((c as u32) + 32) as char
    } else {
        c
    }
}

/// `str::to_lowercase`. Besides naming the result, the contract states the
/// ASCII part of the Unicode mapping: text made only of ASCII characters
/// has its capital letters made lowercase and nothing else changed.
#[verifier::external_body]
pub(crate) fn to_lowercase(s: &str) -> (r: String)
    ensures
        r@ == lowercase(s@),
        (forall|i: int| 0 <= i < s@.len() ==> (#[trigger] s@[i]) as u32 <= 127) ==> r@ == Seq::new(
            s@.len(),
            |i: int| ascii_lower(s@[i]),
        ),
{
    s.to_lowercase()
}

// ───────────────────────── whitespace ─────────────────────────

/// Unicode `White_Space`, the set that `char::is_whitespace` tests.
pub open spec fn is_ws(c: char) -> bool {
    let u = c as u32;
    ||| 0x09 <= u <= 0x0D
    ||| u == 0x20
    ||| u == 0x85
    ||| u == 0xA0
    ||| u == 0x1680
    ||| 0x2000 <= u <= 0x200A
    ||| u == 0x2028
    ||| u == 0x2029
    ||| u == 0x202F
    ||| u == 0x205F
    ||| u == 0x3000
}

pub fn is_ws_exec(c: char) -> (b: bool)
    ensures
        b == is_ws(c),
{
    let u = c as u32;
    (0x09 <= u && u <= 0x0D) || u == 0x20 || u == 0x85 || u == 0xA0 || u == 0x1680 || (0x2000
        <= u && u <= 0x200A) || u == 0x2028 || u == 0x2029 || u == 0x202F || u == 0x205F || u
        == 0x3000
}

// ───────────────────────── words ─────────────────────────

/// The words of `s` as `str::split_whitespace` yields them: maximal runs of
/// non-whitespace characters, in order.
pub open spec fn words(s: Seq<char>) -> Seq<Seq<char>>
    decreases s.len(),
{
    if s.len() == 0 {
        seq![]
    } else {
        let p = words(s.drop_last());
        let c = s.last();
        if is_ws(c) {
            p
        } else if s.len() >= 2 && !is_ws(s[s.len() - 2]) {
            p.update(p.len() - 1, p.last().push(c))
        } else {
            p.push(seq![c])
        }
    }
}

/// Views of a sequence of character vectors.
pub open spec fn seqs(v: Seq<Vec<char>>) -> Seq<Seq<char>> {
    v.map_values(|w: Vec<char>| w@)
}

proof fn lemma_words_nonempty_when_word_char(s: Seq<char>)
    requires
        s.len() > 0,
        !is_ws(s.last()),
    ensures
        words(s).len() > 0,
    decreases s.len(),
{
    if s.len() >= 2 && !is_ws(s[s.len() - 2]) {
        lemma_words_nonempty_when_word_char(s.drop_last());
    }
}

/// Splits `s` into its whitespace-separated words.
pub fn split_words(s: &Vec<char>) -> (r: Vec<Vec<char>>)
    ensures
        seqs(r@) == words(s@),
{
    let mut r: Vec<Vec<char>> = Vec::new();
    let mut i: usize = 0;
    while i < s.len()
        invariant
            i <= s.len(),
            seqs(r@) == words(s@.take(i as int)),
        decreases s.len() - i,
    {
        let c = s[i];
        let ghost t = s@.take(i as int + 1);
        let ghost prev = seqs(r@);
        assert(t.drop_last() =~= s@.take(i as int));
        assert(t.last() == c);
        if i >= 1 {
            assert(t[t.len() - 2] == s@[i - 1]);
        }
        if is_ws_exec(c) {
            i += 1;
        } else if i >= 1 && !is_ws_exec(s[i - 1]) {
            proof {
                assert(s@.take(i as int).last() == s@[i - 1]);
                lemma_words_nonempty_when_word_char(s@.take(i as int));
            }
            let last = r.len() - 1;
            let mut w = r.remove(last);
            w.push(c);
            r.push(w);
            i += 1;
            assert(seqs(r@) =~= prev.update(prev.len() - 1, prev.last().push(c)));
        } else {
            let w = vec![c];
            assert(w@ =~= seq![c]);
            r.push(w);
            i += 1;
            assert(seqs(r@) =~= prev.push(seq![c]));
        }
        assert(seqs(r@) =~= words(t));
    }
    assert(s@.take(s.len() as int) == s@);
    r
}

// ───────────────────────── trimming ─────────────────────────

/// `s` without its leading whitespace.
pub open spec fn trim_start(s: Seq<char>) -> Seq<char>
    decreases s.len(),
{
    if s.len() > 0 && is_ws(s[0]) {
        trim_start(s.drop_first())
    } else {
        s
    }
}

/// `s` without its trailing whitespace.
pub open spec fn trim_end(s: Seq<char>) -> Seq<char>
    decreases s.len(),
{
    if s.len() > 0 && is_ws(s.last()) {
        trim_end(s.drop_last())
    } else {
        s
    }
}

/// `str::trim`: `s` without leading and trailing whitespace.
pub open spec fn trim(s: Seq<char>) -> Seq<char> {
    trim_end(trim_start(s))
}

proof fn lemma_trim_start_skip(s: Seq<char>, i: int)
    requires
        0 <= i <= s.len(),
        forall|k: int| 0 <= k < i ==> is_ws(#[trigger] s[k]),
    ensures
        trim_start(s) == trim_start(s.skip(i)),
    decreases i,
{
    if i > 0 {
        assert(is_ws(s[0]));
        assert(s.drop_first().skip(i - 1) =~= s.skip(i));
        assert forall|k: int| 0 <= k < i - 1 implies is_ws(#[trigger] s.drop_first()[k]) by {
            assert(s.drop_first()[k] == s[k + 1]);
        }
        lemma_trim_start_skip(s.drop_first(), i - 1);
    } else {
        assert(s.skip(0) =~= s);
    }
}

proof fn lemma_trim_end_take(s: Seq<char>, j: int)
    requires
        0 <= j <= s.len(),
        forall|k: int| j <= k < s.len() ==> is_ws(#[trigger] s[k]),
    ensures
        trim_end(s) == trim_end(s.take(j)),
    decreases s.len() - j,
{
    if j < s.len() {
        assert(s.drop_last().take(j) =~= s.take(j));
        lemma_trim_end_take(s.drop_last(), j);
    } else {
        assert(s.take(j) =~= s);
    }
}

/// Removes leading and trailing whitespace.
pub fn trim_chars(s: &[char]) -> (r: Vec<char>)
    ensures
        r@ == trim(s@),
{
    let mut i: usize = 0;
    while i < s.len() && is_ws_exec(s[i])
        invariant
            i <= s.len(),
            forall|k: int| 0 <= k < i ==> is_ws(#[trigger] s@[k]),
        decreases s.len() - i,
    {
        i += 1;
    }
    proof {
        lemma_trim_start_skip(s@, i as int);
    }
    let ghost t = s@.skip(i as int);
    assert(t.len() == 0 || !is_ws(t[0]));
    assert(trim_start(t) == t);
    let mut j: usize = s.len();
    while j > i && is_ws_exec(s[j - 1])
        invariant
            i <= j <= s.len(),
            forall|k: int| j <= k < s.len() ==> is_ws(#[trigger] s@[k]),
        decreases j,
    {
        j -= 1;
    }
    proof {
        assert forall|k: int| j - i <= k < t.len() implies is_ws(#[trigger] t[k]) by {
            assert(t[k] == s@[k + i]);
        }
        lemma_trim_end_take(t, j - i);
        let u = t.take(j - i);
        assert(u.len() == 0 || !is_ws(u.last()));
    }
    let mut r: Vec<char> = Vec::new();
    let mut k: usize = i;
    while k < j
        invariant
            i <= k <= j,
            j <= s.len(),
            r@ == s@.subrange(i as int, k as int),
        decreases j - k,
    {
        r.push(s[k]);
        k += 1;
    }
    assert(r@ =~= t.take(j - i));
    r
}

// ───────────────────────── unsigned decimal numbers ─────────────────────────

pub open spec fn is_digit(c: char) -> bool {
    48 <= (c as u32) <= 57
}

pub open spec fn digit_value(c: char) -> nat {
    ((c as u32) - 48) as nat
}

pub open spec fn all_digits(s: Seq<char>) -> bool {
    forall|i: int| 0 <= i < s.len() ==> is_digit(#[trigger] s[i])
}

/// The number that a sequence of decimal digits denotes.
pub open spec fn digits_value(s: Seq<char>) -> nat
    decreases s.len(),
{
    if s.len() == 0 {
        0
    } else {
        digits_value(s.drop_last()) * 10 + digit_value(s.last())
    }
}

/// The digits of a number as `u64::from_str` reads them: one optional `+`.
pub open spec fn number_digits(s: Seq<char>) -> Seq<char> {
    if s.len() > 0 && s[0] == '+' {
        s.drop_first()
    } else {
        s
    }
}

/// `FromStr` for an unsigned integer type whose largest value is `max`:
/// an optional `+`, then one or more ASCII digits, denoting at most `max`.
pub open spec fn parse_unsigned(s: Seq<char>, max: nat) -> Option<nat> {
    let d = number_digits(s);
    if d.len() > 0 && all_digits(d) && digits_value(d) <= max {
        Some(digits_value(d))
    } else {
        None
    }
}

proof fn lemma_digits_value_monotone(s: Seq<char>, i: int)
    requires
        0 <= i <= s.len(),
    ensures
        digits_value(s.take(i)) <= digits_value(s),
    decreases s.len() - i,
{
    if i < s.len() {
        assert(s.drop_last().take(i) =~= s.take(i));
        lemma_digits_value_monotone(s.drop_last(), i);
    } else {
        assert(s.take(i) =~= s);
    }
}

/// Parses an unsigned decimal number no greater than `max`.
pub fn parse_unsigned_exec(s: &[char], max: u64) -> (r: Option<u64>)
    ensures
        r is Some <==> parse_unsigned(s@, max as nat) is Some,
        r is Some ==> r->0 as nat == parse_unsigned(s@, max as nat)->0,
{
    let ghost d = number_digits(s@);
    let start: usize = if s.len() > 0 && s[0] == '+' {
        1
    } else {
        0
    };
    assert(d =~= s@.skip(start as int));
    if start >= s.len() {
        return None;
    }
    let mut acc: u64 = 0;
    let mut i: usize = start;
    while i < s.len()
        invariant
            start <= i <= s.len(),
            d == s@.skip(start as int),
            d == number_digits(s@),
            start < s.len(),
            all_digits(d.take(i - start)),
            acc as nat == digits_value(d.take(i - start)),
            acc <= max,
        decreases s.len() - i,
    {
        let c = s[i];
        let ghost t = d.take(i - start + 1);
        assert(t.drop_last() =~= d.take(i - start));
        assert(t.last() == c);
        if !((c as u32) >= 48 && (c as u32) <= 57) {
            assert(!all_digits(d)) by {
                assert(d[i - start] == c);
            }
            return None;
        }
        let dv: u64 = ((c as u32) - 48) as u64;
        let next: u128 = (acc as u128) * 10 + (dv as u128);
        if next > max as u128 {
            proof {
                lemma_digits_value_monotone(d, i - start + 1);
            }
            return None;
        }
        acc = next as u64;
        i += 1;
        assert(all_digits(d.take(i - start))) by {
            assert forall|k: int| 0 <= k < i - start implies is_digit(#[trigger] d.take(i - start)[k]) by {
                if k < i - start - 1 {
                    assert(d.take(i - start)[k] == d.take(i - start - 1)[k]);
                }
            }
        }
    }
    assert(d.take(i - start) =~= d);
    Some(acc)
}

pub fn parse_u16(s: &[char]) -> (r: Option<u16>)
    ensures
        r is Some <==> parse_unsigned(s@, u16::MAX as nat) is Some,
        r is Some ==> r->0 as nat == parse_unsigned(s@, u16::MAX as nat)->0,
{
    match parse_unsigned_exec(s, u16::MAX as u64) {
        Some(v) => Some(v as u16),
        None => None,
    }
}

pub fn parse_u32(s: &[char]) -> (r: Option<u32>)
    ensures
        r is Some <==> parse_unsigned(s@, u32::MAX as nat) is Some,
        r is Some ==> r->0 as nat == parse_unsigned(s@, u32::MAX as nat)->0,
{
    match parse_unsigned_exec(s, u32::MAX as u64) {
        Some(v) => Some(v as u32),
        None => None,
    }
}

pub fn parse_u64(s: &[char]) -> (r: Option<u64>)
    ensures
        r is Some <==> parse_unsigned(s@, u64::MAX as nat) is Some,
        r is Some ==> r->0 as nat == parse_unsigned(s@, u64::MAX as nat)->0,
{
    parse_unsigned_exec(s, u64::MAX)
}


// ───────────────────────── substrings ─────────────────────────

/// `pat` occurs in `s` starting at index `i`.
pub open spec fn occurs_at(s: Seq<char>, pat: Seq<char>, i: int) -> bool {
    0 <= i && i + pat.len() <= s.len() && s.subrange(i, i + pat.len()) == pat
}

/// The first index at or after `from` where `pat` occurs in `s`.
pub open spec fn find_from(s: Seq<char>, pat: Seq<char>, from: int) -> Option<int>
    decreases s.len() + 1 - from,
{
    if from < 0 || from + pat.len() > s.len() {
        None
    } else if occurs_at(s, pat, from) {
        Some(from)
    } else {
        find_from(s, pat, from + 1)
    }
}

/// `str::contains` with a string pattern.
pub open spec fn contains(s: Seq<char>, pat: Seq<char>) -> bool {
    find_from(s, pat, 0) is Some
}

/// `str::starts_with` with a string pattern.
pub open spec fn starts_with(s: Seq<char>, pat: Seq<char>) -> bool {
    pat.len() <= s.len() && s.take(pat.len() as int) == pat
}

/// `s.split(pat).next()`: the part of `s` before the first occurrence of `pat`.
pub open spec fn before_first(s: Seq<char>, pat: Seq<char>) -> Seq<char> {
    match find_from(s, pat, 0) {
        Some(i) => s.take(i),
        None => s,
    }
}

/// `s.split(pat).nth(1)`: the part between the first and the second occurrence of `pat`
/// (or up to the end), when `pat` occurs at all.
pub open spec fn second_piece(s: Seq<char>, pat: Seq<char>) -> Option<Seq<char>> {
    match find_from(s, pat, 0) {
        None => None,
        Some(i) => {
            let j = i + pat.len();
            match find_from(s, pat, j) {
                Some(k) => Some(s.subrange(j, k)),
                None => Some(s.skip(j)),
            }
        },
    }
}

/// The index of the last occurrence of `c` in `s.take(end)`.
pub open spec fn last_index_before(s: Seq<char>, c: char, end: int) -> Option<int>
    decreases end,
{
    if end <= 0 {
        None
    } else if s[end - 1] == c {
        Some(end - 1)
    } else {
        last_index_before(s, c, end - 1)
    }
}

/// `s.rsplit(c).next()` (equally `s.split(c).next_back()`): the part after the
/// last occurrence of `c`, or all of `s`.
pub open spec fn after_last(s: Seq<char>, c: char) -> Seq<char> {
    match last_index_before(s, c, s.len() as int) {
        Some(i) => s.skip(i + 1),
        None => s,
    }
}

pub proof fn lemma_find_from_bounds(s: Seq<char>, pat: Seq<char>, from: int)
    requires
        from >= 0,
    ensures
        find_from(s, pat, from) matches Some(i) ==> from <= i && occurs_at(s, pat, i),
        find_from(s, pat, from) is None ==> forall|k: int|
            from <= k ==> !#[trigger] occurs_at(s, pat, k),
    decreases s.len() + 1 - from,
{
    if from < 0 || from + pat.len() > s.len() {
        if from >= 0 {
            assert forall|k: int| from <= k implies !#[trigger] occurs_at(s, pat, k) by {}
        }
    } else if !occurs_at(s, pat, from) {
        lemma_find_from_bounds(s, pat, from + 1);
        if find_from(s, pat, from) is None {
            assert forall|k: int| from <= k implies !#[trigger] occurs_at(s, pat, k) by {
                if k > from {
                }
            }
        }
    }
}

/// Whether `pat` occurs in `s` at index `i`.
fn occurs_at_exec(s: &[char], pat: &[char], i: usize) -> (b: bool)
    ensures
        b == occurs_at(s@, pat@, i as int),
{
    if i > s.len() || pat.len() > s.len() - i {
        return false;
    }
    let mut k: usize = 0;
    while k < pat.len()
        invariant
            i + pat.len() <= s.len(),
            k <= pat.len(),
            forall|m: int| 0 <= m < k ==> s@[i + m] == pat@[m],
        decreases pat.len() - k,
    {
        if s[i + k] != pat[k] {
            assert(s@.subrange(i as int, i + pat.len())[k as int] != pat@[k as int]);
            return false;
        }
        k += 1;
    }
    assert(s@.subrange(i as int, i + pat.len()) =~= pat@);
    true
}

/// The first index at or after `from` where `pat` occurs in `s`.
/// The first occurrence at or after `from` is at `pos`.
pub proof fn lemma_find_first(s: Seq<char>, pat: Seq<char>, from: int, pos: int)
    requires
        0 <= from <= pos,
        occurs_at(s, pat, pos),
        forall|j: int| from <= j < pos ==> !occurs_at(s, pat, j),
    ensures
        find_from(s, pat, from) == Some(pos),
    decreases pos - from,
{
    if from < pos {
        lemma_find_first(s, pat, from + 1, pos);
    }
}

/// No occurrence at or after `from`.
pub proof fn lemma_find_none(s: Seq<char>, pat: Seq<char>, from: int)
    requires
        0 <= from,
        forall|j: int| from <= j ==> !occurs_at(s, pat, j),
    ensures
        find_from(s, pat, from) is None,
    decreases s.len() + 1 - from,
{
    if from + pat.len() <= s.len() {
        lemma_find_none(s, pat, from + 1);
    }
}

/// Nothing before the occurrence `find_from` reports is an occurrence.
pub proof fn lemma_find_minimal(s: Seq<char>, pat: Seq<char>, from: int)
    requires
        from >= 0,
    ensures
        find_from(s, pat, from) matches Some(i) ==> forall|k: int| from <= k < i ==> !occurs_at(s, pat, k),
    decreases s.len() + 1 - from,
{
    if from + pat.len() <= s.len() && !occurs_at(s, pat, from) {
        lemma_find_minimal(s, pat, from + 1);
    }
}

pub fn find_chars(s: &[char], pat: &[char], from: usize) -> (r: Option<usize>)
    ensures
        r is Some <==> find_from(s@, pat@, from as int) is Some,
        r is Some ==> r->0 as int == find_from(s@, pat@, from as int)->0,
        r is Some ==> occurs_at(s@, pat@, r->0 as int) && r->0 + pat.len() <= s.len(),
{
    let mut i = from;
    while i <= s.len() && pat.len() <= s.len() - i
        invariant
            from <= i,
            find_from(s@, pat@, from as int) == find_from(s@, pat@, i as int),
        decreases s.len() + 1 - i,
    {
        assert(pat.len() == 0 ==> s@.subrange(i as int, i as int) =~= pat@);
        if occurs_at_exec(s, pat, i) {
            return Some(i);
        }
        i += 1;
    }
    None
}

pub fn contains_chars(s: &[char], pat: &[char]) -> (b: bool)
    ensures
        b == contains(s@, pat@),
{
    find_chars(s, pat, 0).is_some()
}

pub fn starts_with_chars(s: &[char], pat: &[char]) -> (b: bool)
    ensures
        b == starts_with(s@, pat@),
{
    if pat.len() > s.len() {
        return false;
    }
    let b = occurs_at_exec(s, pat, 0);
    assert(s@.subrange(0, pat@.len() as int) =~= s@.take(pat@.len() as int));
    b
}

/// The characters `s[start..end]`.
pub fn slice_chars(s: &[char], start: usize, end: usize) -> (r: Vec<char>)
    requires
        start <= end <= s.len(),
    ensures
        r@ == s@.subrange(start as int, end as int),
{
    let mut r: Vec<char> = Vec::new();
    let mut k = start;
    while k < end
        invariant
            start <= k <= end,
            end <= s.len(),
            r@ == s@.subrange(start as int, k as int),
        decreases end - k,
    {
        r.push(s[k]);
        k += 1;
    }
    r
}

pub fn before_first_chars(s: &[char], pat: &[char]) -> (r: Vec<char>)
    ensures
        r@ == before_first(s@, pat@),
{
    proof {
        lemma_find_from_bounds(s@, pat@, 0);
    }
    match find_chars(s, pat, 0) {
        Some(i) => slice_chars(s, 0, i),
        None => slice_chars(s, 0, s.len()),
    }
}

pub fn second_piece_chars(s: &[char], pat: &[char]) -> (r: Option<Vec<char>>)
    ensures
        r is Some <==> second_piece(s@, pat@) is Some,
        r is Some ==> r->0@ == second_piece(s@, pat@)->0,
{
    proof {
        lemma_find_from_bounds(s@, pat@, 0);
    }
    match find_chars(s, pat, 0) {
        None => None,
        Some(i) => {
            assert(occurs_at(s@, pat@, i as int));
            assert(i + pat.len() <= s.len());
            let j = i + pat.len();
            proof {
                lemma_find_from_bounds(s@, pat@, j as int);
            }
            match find_chars(s, pat, j) {
                Some(k) => Some(slice_chars(s, j, k)),
                None => Some(slice_chars(s, j, s.len())),
            }
        },
    }
}

proof fn lemma_last_index_bounds(s: Seq<char>, c: char, end: int)
    requires
        end <= s.len(),
    ensures
        last_index_before(s, c, end) matches Some(i) ==> 0 <= i < end && s[i] == c,
    decreases end,
{
    if end > 0 && s[end - 1] != c {
        lemma_last_index_bounds(s, c, end - 1);
    }
}

pub fn after_last_chars(s: &[char], c: char) -> (r: Vec<char>)
    ensures
        r@ == after_last(s@, c),
{
    let mut end = s.len();
    while end > 0 && s[end - 1] != c
        invariant
            end <= s.len(),
            last_index_before(s@, c, s.len() as int) == last_index_before(s@, c, end as int),
        decreases end,
    {
        end -= 1;
    }
    if end == 0 {
        slice_chars(s, 0, s.len())
    } else {
        slice_chars(s, end, s.len())
    }
}

/// `s.strip_prefix(p)`.
pub open spec fn strip_prefix(s: Seq<char>, p: Seq<char>) -> Option<Seq<char>> {
    if starts_with(s, p) {
        Some(s.skip(p.len() as int))
    } else {
        None
    }
}

pub fn strip_prefix_chars(s: &[char], p: &[char]) -> (r: Option<Vec<char>>)
    ensures
        r is Some <==> strip_prefix(s@, p@) is Some,
        r is Some ==> r->0@ == strip_prefix(s@, p@)->0,
{
    if starts_with_chars(s, p) {
        let v = slice_chars(s, p.len(), s.len());
        assert(v@ =~= s@.skip(p@.len() as int));
        Some(v)
    } else {
        None
    }
}

/// `s.split_once(c)`.
pub open spec fn split_once(s: Seq<char>, c: char) -> Option<(Seq<char>, Seq<char>)> {
    match find_from(s, seq![c], 0) {
        Some(i) => Some((s.take(i), s.skip(i + 1))),
        None => None,
    }
}

pub fn split_once_chars(s: &[char], c: char) -> (r: Option<(Vec<char>, Vec<char>)>)
    ensures
        r is Some <==> split_once(s@, c) is Some,
        r matches Some((a, b)) ==> split_once(s@, c) == Some((a@, b@)),
{
    let pat = vec![c];
    assert(pat@ =~= seq![c]);
    match find_chars(s, pat.as_slice(), 0) {
        Some(i) => {
            let a = slice_chars(s, 0, i);
            let b = slice_chars(s, i + 1, s.len());
            assert(a@ =~= s@.take(i as int));
            assert(b@ =~= s@.skip(i + 1));
            Some((a, b))
        },
        None => None,
    }
}

// ───────────────────────── splitting on a character ─────────────────────────

/// The pieces of `s.split(c)`: the text between occurrences of `c`; one
/// empty piece for an empty string.
pub open spec fn split_on(s: Seq<char>, c: char) -> Seq<Seq<char>>
    decreases s.len(),
{
    if s.len() == 0 {
        seq![seq![]]
    } else {
        let p = split_on(s.drop_last(), c);
        if s.last() == c {
            p.push(seq![])
        } else {
            p.update(p.len() - 1, p.last().push(s.last()))
        }
    }
}

/// Splits `s` at every `c`.
pub fn split_on_char(s: &[char], c: char) -> (r: Vec<Vec<char>>)
    ensures
        seqs(r@) == split_on(s@, c),
{
    let mut r: Vec<Vec<char>> = Vec::new();
    r.push(Vec::new());
    assert(seqs(r@) =~= split_on(s@.take(0), c));
    let mut i: usize = 0;
    while i < s.len()
        invariant
            i <= s.len(),
            r@.len() >= 1,
            seqs(r@) == split_on(s@.take(i as int), c),
        decreases s.len() - i,
    {
        let ghost before = seqs(r@);
        assert(s@.take(i as int + 1).drop_last() =~= s@.take(i as int));
        assert(s@.take(i as int + 1).last() == s[i as int]);
        if s[i] == c {
            r.push(Vec::new());
            assert(seqs(r@) =~= before.push(seq![]));
        } else {
            let last = r.len() - 1;
            let mut piece = r[last].clone();
            piece.push(s[i]);
            r.set(last, piece);
            assert(seqs(r@) =~= before.update(before.len() - 1, before.last().push(s[i as int])));
        }
        i += 1;
    }
    assert(s@.take(s.len() as int) =~= s@);
    r
}

// ───────────────────────── lines ─────────────────────────

/// The pieces of `s.split_inclusive('\n')`.
pub open spec fn newline_pieces(s: Seq<char>) -> Seq<Seq<char>>
    decreases s.len(),
{
    if s.len() == 0 {
        seq![]
    } else {
        let p = newline_pieces(s.drop_last());
        let c = s.last();
        if p.len() > 0 && p.last().last() != '\n' {
            p.update(p.len() - 1, p.last().push(c))
        } else {
            p.push(seq![c])
        }
    }
}

/// A piece without its line ending (`\n` or `\r\n`).
pub open spec fn strip_line_end(piece: Seq<char>) -> Seq<char> {
    if piece.len() > 0 && piece.last() == '\n' {
        let q = piece.drop_last();
        if q.len() > 0 && q.last() == '\r' {
            q.drop_last()
        } else {
            q
        }
    } else {
        piece
    }
}

/// The lines of `s` as `str::lines` yields them.
pub open spec fn lines(s: Seq<char>) -> Seq<Seq<char>> {
    newline_pieces(s).map_values(|p: Seq<char>| strip_line_end(p))
}

proof fn lemma_pieces_single(s: Seq<char>)
    requires
        s.len() > 0,
        forall|k: int| 0 <= k < s.len() ==> s[k] != '\n',
    ensures
        newline_pieces(s) == seq![s],
    decreases s.len(),
{
    let d = s.drop_last();
    if s.len() > 1 {
        lemma_pieces_single(d);
        assert(d.last() == s[s.len() - 2]);
        assert(d.push(s.last()) =~= s);
        assert(seq![d].update(0, d.push(s.last())) =~= seq![s]);
    } else {
        assert(d.len() == 0);
        assert(newline_pieces(d) == Seq::<Seq<char>>::empty());
        assert(seq![s.last()] =~= s);
        assert(Seq::<Seq<char>>::empty().push(seq![s.last()]) =~= seq![s]);
    }
}

/// Text without a line break is one line, and so is that text followed by
/// a line break, unless the text ends with a carriage return.
pub proof fn lemma_single_line(s: Seq<char>)
    requires
        s.len() > 0,
        forall|k: int| 0 <= k < s.len() ==> s[k] != '\n',
        s.last() != '\r',
    ensures
        lines(s) == seq![s],
        lines(s.push('\n')) == seq![s],
{
    lemma_pieces_single(s);
    assert(lines(s) =~= seq![s]);
    let t = s.push('\n');
    assert(t.drop_last() =~= s);
    assert(newline_pieces(t) == seq![s].update(0, s.push('\n')));
    assert(t.last() == '\n');
    assert(s.push('\n').drop_last() =~= s);
    assert(lines(t) =~= seq![s]);
}

proof fn lemma_newline_pieces_nonempty(s: Seq<char>)
    ensures
        forall|k: int| 0 <= k < newline_pieces(s).len() ==> #[trigger] newline_pieces(s)[k].len()
            > 0,
    decreases s.len(),
{
    if s.len() > 0 {
        lemma_newline_pieces_nonempty(s.drop_last());
        let p = newline_pieces(s.drop_last());
        let c = s.last();
        if p.len() > 0 && p.last().last() != '\n' {
            assert forall|k: int| 0 <= k < newline_pieces(s).len() implies #[trigger] newline_pieces(
                s,
            )[k].len() > 0 by {
                if k < p.len() - 1 {
                    assert(newline_pieces(s)[k] == p[k]);
                }
            }
        } else {
            assert forall|k: int| 0 <= k < newline_pieces(s).len() implies #[trigger] newline_pieces(
                s,
            )[k].len() > 0 by {
                if k < p.len() {
                    assert(newline_pieces(s)[k] == p[k]);
                }
            }
        }
    }
}

fn strip_line_end_exec(piece: Vec<char>) -> (r: Vec<char>)
    ensures
        r@ == strip_line_end(piece@),
{
    let mut q = piece;
    if q.len() > 0 && q[q.len() - 1] == '\n' {
        q.pop();
        if q.len() > 0 && q[q.len() - 1] == '\r' {
            q.pop();
        }
    }
    q
}

/// Splits `s` into its lines.
pub fn split_lines(s: &[char]) -> (r: Vec<Vec<char>>)
    ensures
        seqs(r@) == lines(s@),
{
    let mut pieces: Vec<Vec<char>> = Vec::new();
    let mut i: usize = 0;
    while i < s.len()
        invariant
            i <= s.len(),
            seqs(pieces@) == newline_pieces(s@.take(i as int)),
        decreases s.len() - i,
    {
        let c = s[i];
        let ghost t = s@.take(i as int + 1);
        let ghost prev = seqs(pieces@);
        assert(t.drop_last() =~= s@.take(i as int));
        assert(t.last() == c);
        proof {
            lemma_newline_pieces_nonempty(s@.take(i as int));
        }
        let n = pieces.len();
        let extend = if n > 0 {
            let lp = &pieces[n - 1];
            assert(lp@ == prev[n - 1]);
            lp[lp.len() - 1] != '\n'
        } else {
            false
        };
        if extend {
            let mut w = pieces.remove(n - 1);
            w.push(c);
            pieces.push(w);
            assert(seqs(pieces@) =~= prev.update(prev.len() - 1, prev.last().push(c)));
        } else {
            let w = vec![c];
            assert(w@ =~= seq![c]);
            pieces.push(w);
            assert(seqs(pieces@) =~= prev.push(seq![c]));
        }
        i += 1;
        assert(seqs(pieces@) =~= newline_pieces(t));
    }
    assert(s@.take(s.len() as int) =~= s@);
    let ghost all = seqs(pieces@);
    let mut r: Vec<Vec<char>> = Vec::new();
    let mut k: usize = 0;
    while k < pieces.len()
        invariant
            k <= pieces.len(),
            all == seqs(pieces@),
            r.len() == k,
            forall|m: int| 0 <= m < k ==> #[trigger] r@[m]@ == strip_line_end(all[m]),
        decreases pieces.len() - k,
    {
        let piece = pieces[k].clone();
        assert(piece@ == all[k as int]);
        let line = strip_line_end_exec(piece);
        r.push(line);
        k += 1;
    }
    assert(seqs(r@) =~= lines(s@));
    r
}


/// A number as `str::parse` reads it, or 0 when it does not read.
pub open spec fn number_or_zero(s: Seq<char>, max: nat) -> nat {
    match parse_unsigned(s, max) {
        Some(v) => v,
        None => 0,
    }
}

pub fn number_or_zero_u32(s: &[char]) -> (r: u32)
    ensures
        r as nat == number_or_zero(s@, u32::MAX as nat),
{
    match parse_u32(s) {
        Some(v) => v,
        None => 0,
    }
}

pub fn number_or_zero_u64(s: &[char]) -> (r: u64)
    ensures
        r as nat == number_or_zero(s@, u64::MAX as nat),
{
    match parse_u64(s) {
        Some(v) => v,
        None => 0,
    }
}

// ───────────────────────── hexadecimal numbers ─────────────────────────

pub open spec fn hex_digit_value(c: char) -> Option<nat> {
    let u = c as u32;
    if 48 <= u <= 57 {
        Some((u - 48) as nat)
    } else if 97 <= u <= 102 {
        Some((u - 87) as nat)
    } else if 65 <= u <= 70 {
        Some((u - 55) as nat)
    } else {
        None
    }
}

pub open spec fn all_hex_digits(s: Seq<char>) -> bool {
    forall|i: int| 0 <= i < s.len() ==> (#[trigger] hex_digit_value(s[i])) is Some
}

pub open spec fn hex_value(s: Seq<char>) -> nat
    decreases s.len(),
{
    if s.len() == 0 {
        0
    } else {
        hex_value(s.drop_last()) * 16 + match hex_digit_value(s.last()) {
            Some(v) => v,
            None => 0,
        }
    }
}

/// `usize::from_str_radix(s, 16)` for a type whose largest value is `max`:
/// an optional `+`, then one or more hexadecimal digits of either case.
pub open spec fn parse_hex(s: Seq<char>, max: nat) -> Option<nat> {
    let d = number_digits(s);
    if d.len() > 0 && all_hex_digits(d) && hex_value(d) <= max {
        Some(hex_value(d))
    } else {
        None
    }
}

proof fn lemma_hex_value_monotone(s: Seq<char>, i: int)
    requires
        0 <= i <= s.len(),
    ensures
        hex_value(s.take(i)) <= hex_value(s),
    decreases s.len() - i,
{
    if i < s.len() {
        assert(s.drop_last().take(i) =~= s.take(i));
        lemma_hex_value_monotone(s.drop_last(), i);
    } else {
        assert(s.take(i) =~= s);
    }
}

/// Parses a hexadecimal number no greater than `max`.
pub fn parse_hex_exec(s: &[char], max: u64) -> (r: Option<u64>)
    ensures
        r is Some <==> parse_hex(s@, max as nat) is Some,
        r is Some ==> r->0 as nat == parse_hex(s@, max as nat)->0,
{
    let ghost d = number_digits(s@);
    let start: usize = if s.len() > 0 && s[0] == '+' {
        1
    } else {
        0
    };
    assert(d =~= s@.skip(start as int));
    if start >= s.len() {
        return None;
    }
    let mut acc: u64 = 0;
    let mut i: usize = start;
    while i < s.len()
        invariant
            start <= i <= s.len(),
            d == s@.skip(start as int),
            d == number_digits(s@),
            start < s.len(),
            all_hex_digits(d.take(i - start)),
            acc as nat == hex_value(d.take(i - start)),
            acc <= max,
        decreases s.len() - i,
    {
        let c = s[i];
        let ghost t = d.take(i - start + 1);
        assert(t.drop_last() =~= d.take(i - start));
        assert(t.last() == c);
        let u = c as u32;
        let dv: u64 = if 48 <= u && u <= 57 {
            (u - 48) as u64
        } else if 97 <= u && u <= 102 {
            (u - 87) as u64
        } else if 65 <= u && u <= 70 {
            (u - 55) as u64
        } else {
            assert(!all_hex_digits(d)) by {
                assert(d[i - start] == c);
                assert(hex_digit_value(d[i - start]) is None);
            }
            return None;
        };
        let next: u128 = (acc as u128) * 16 + (dv as u128);
        if next > max as u128 {
            proof {
                lemma_hex_value_monotone(d, i - start + 1);
            }
            return None;
        }
        acc = next as u64;
        i += 1;
        assert(all_hex_digits(d.take(i - start))) by {
            assert forall|k: int| 0 <= k < i - start implies (#[trigger] hex_digit_value(
                d.take(i - start)[k],
            )) is Some by {
                if k < i - start - 1 {
                    assert(d.take(i - start)[k] == d.take(i - start - 1)[k]);
                }
            }
        }
    }
    assert(d.take(i - start) =~= d);
    Some(acc)
}

} // verus!
