//! The container detail view: the action it asks the user to confirm, and
//! its environment lines with the values hidden.
use vstd::prelude::*;
use crate::collectors::ports::string_views;
use crate::order::{lemma_insort_by_at, lex_lt, lex_lt_exec, sort_by_key};
use crate::text::{append_chars, chars_of, seqs, split_once, split_once_chars, string_from_chars};

verus! {

/// A container action waiting for confirmation, carrying the container's id.
#[derive(Clone, Debug, PartialEq, Eq)]
pub enum ConfirmAction {
    Restart(String),
    Stop(String),
}

/// What stands in for an environment value while values are hidden.
pub open spec fn hidden_value() -> Seq<char> {
    seq!['●', '●', '●', '●', '●', '●']
}

/// One environment entry as the detail view shows it: `KEY=value`, the
/// value hidden unless `show_values`; an entry without `=` as it is.
pub open spec fn env_line(e: Seq<char>, show_values: bool) -> Seq<char> {
    match split_once(e, '=') {
        Some((k, v)) => k + seq!['='] + if show_values {
            v
        } else {
            hidden_value()
        },
        None => e,
    }
}

/// A text is its own sort key.
pub open spec fn text_key() -> spec_fn(Seq<char>) -> Seq<char> {
    |s: Seq<char>| s
}

/// Sorts texts in string order, keeping the order of equal ones.
fn sort_texts(v: &Vec<Vec<char>>) -> (r: Vec<Vec<char>>)
    ensures
        seqs(r@) == sort_by_key(seqs(v@), text_key()),
{
    let ghost input = seqs(v@);
    let mut out: Vec<Vec<char>> = Vec::new();
    let mut i: usize = 0;
    while i < v.len()
        invariant
            i <= v@.len(),
            input == seqs(v@),
            seqs(out@) == sort_by_key(input.take(i as int), text_key()),
        decreases v.len() - i,
    {
        let x = v[i].clone();
        let ghost s = seqs(out@);
        assert(x@ == input[i as int]);
        let mut j: usize = out.len();
        while j > 0 && lex_lt_exec(x.as_slice(), out[j - 1].as_slice())
            invariant
                j <= out@.len(),
                s == seqs(out@),
                forall|k: int| j <= k < s.len() ==> lex_lt(x@, #[trigger] s[k]),
                text_key()(x@) == x@,
            decreases j,
        {
            assert(s[j - 1] == out@[j - 1]@);
            j -= 1;
        }
        if j > 0 {
            assert(s[j - 1] == out@[j - 1]@);
        }
        proof {
            lemma_insort_by_at(s, x@, text_key(), j as int);
            assert(input.take(i as int + 1).drop_last() =~= input.take(i as int));
        }
        out.insert(j, x);
        assert(seqs(out@) =~= s.take(j as int) + seq![input[i as int]] + s.skip(j as int));
        i += 1;
    }
    assert(input.take(v@.len() as int) =~= input);
    out
}

/// The environment lines of the detail view: the entries in string order,
/// each shown as `env_line` shows it.
pub fn env_lines(env: &Vec<String>, show_values: bool) -> (r: Vec<String>)
    ensures
        r@.len() == env@.len(),
        forall|k: int|
            0 <= k < r@.len() ==> (#[trigger] r@[k])@ == env_line(
                sort_by_key(string_views(env@), text_key())[k],
                show_values,
            ),
{
    let mut texts: Vec<Vec<char>> = Vec::new();
    let mut i: usize = 0;
    while i < env.len()
        invariant
            i <= env@.len(),
            seqs(texts@) == string_views(env@).take(i as int),
        decreases env.len() - i,
    {
        let c = chars_of(env[i].as_str());
        let ghost prev = seqs(texts@);
        texts.push(c);
        assert(seqs(texts@) =~= prev.push(env@[i as int]@));
        assert(string_views(env@).take(i + 1) =~= string_views(env@).take(i as int).push(env@[i as int]@));
        i += 1;
    }
    assert(string_views(env@).take(env@.len() as int) =~= string_views(env@));
    let sorted = sort_texts(&texts);
    let ghost sv = sort_by_key(string_views(env@), text_key());
    proof {
        crate::order::lemma_sort_by_key(string_views(env@), text_key());
    }
    let mut r: Vec<String> = Vec::new();
    let mut k: usize = 0;
    while k < sorted.len()
        invariant
            k <= sorted@.len(),
            seqs(sorted@) == sv,
            sv.len() == env@.len(),
            r@.len() == k,
            forall|m: int| 0 <= m < k ==> (#[trigger] r@[m])@ == env_line(sv[m], show_values),
        decreases sorted.len() - k,
    {
        assert(sorted@[k as int]@ == sv[k as int]);
        let line = match split_once_chars(sorted[k].as_slice(), '=') {
            Some((key, val)) => {
                let mut out = key;
                out.push('=');
                if show_values {
                    append_chars(&mut out, val.as_slice());
                } else {
                    let dots = vec!['●', '●', '●', '●', '●', '●'];
                    assert(dots@ =~= hidden_value());
                    append_chars(&mut out, dots.as_slice());
                }
                string_from_chars(out.as_slice())
            },
            None => string_from_chars(sorted[k].as_slice()),
        };
        r.push(line);
        k += 1;
    }
    r
}

} // verus!
