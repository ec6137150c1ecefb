//! Pressure stall information: the `some` and `full` lines of the kernel's
//! `cpu`, `memory` and `io` pressure files.
use vstd::prelude::*;
use crate::collectors::ports::chars_eq;
use crate::text::{
    chars_of, contains, contains_chars, lines, number_or_zero, number_or_zero_u64, seqs,
    split_lines, split_once, split_once_chars, split_words, string_from_chars, words,
};

verus! {

/// Where the pressure files are read from.
pub struct PsiCollector {
    pub base_path: String,
}

impl PsiCollector {
    /// Reads the kernel's files under `/proc/pressure`.
    pub fn new() -> (c: Self)
        ensures
            c.base_path@ == "/proc/pressure"@,
    {
        PsiCollector { base_path: "/proc/pressure".to_owned() }
    }

    /// Reads the pressure files under another directory.
    pub fn with_base_path(path: String) -> (c: Self)
        ensures
            c.base_path == path,
    {
        PsiCollector { base_path: path }
    }
}

/// One pressure line: the text of its three averages, which the caller
/// reads as decimal numbers (empty when the line has no such field), and
/// its total stall time in microseconds.
pub struct PsiFields {
    pub avg10: String,
    pub avg60: String,
    pub avg300: String,
    pub total: u64,
}

/// The `some` and `full` lines of one pressure file, when present.
pub struct PsiFile {
    pub some: Option<PsiFields>,
    pub full: Option<PsiFields>,
}

/// All five pressure lines the interface shows.
pub struct PsiReadings {
    pub cpu_some: PsiFields,
    pub memory_some: PsiFields,
    pub memory_full: PsiFields,
    pub io_some: PsiFields,
    pub io_full: PsiFields,
}

pub open spec fn fields_view(f: PsiFields) -> (Seq<char>, Seq<char>, Seq<char>, nat) {
    (f.avg10@, f.avg60@, f.avg300@, f.total as nat)
}

pub open spec fn opt_fields_view(f: Option<PsiFields>) -> Option<(Seq<char>, Seq<char>, Seq<char>, nat)> {
    match f {
        Some(x) => Some(fields_view(x)),
        None => None,
    }
}

/// A `key=value` field: exactly one `=` splits it.
pub open spec fn key_value(part: Seq<char>) -> Option<(Seq<char>, Seq<char>)> {
    match split_once(part, '=') {
        Some((k, v)) => if contains(v, seq!['=']) { None } else { Some((k, v)) },
        None => None,
    }
}

/// The effect of one field on the values read so far; later fields win.
pub open spec fn psi_field(
    f: (Seq<char>, Seq<char>, Seq<char>, nat),
    part: Seq<char>,
) -> (Seq<char>, Seq<char>, Seq<char>, nat) {
    let (a10, a60, a300, t) = f;
    match key_value(part) {
        Some((k, v)) => if k == "avg10"@ {
            (v, a60, a300, t)
        } else if k == "avg60"@ {
            (a10, v, a300, t)
        } else if k == "avg300"@ {
            (a10, a60, v, t)
        } else if k == "total"@ {
            (a10, a60, a300, number_or_zero(v, u64::MAX as nat))
        } else {
            f
        },
        None => f,
    }
}

/// The values of the first `n` fields.
pub open spec fn psi_fields(parts: Seq<Seq<char>>, n: int) -> (Seq<char>, Seq<char>, Seq<char>, nat)
    decreases n,
{
    if n <= 0 {
        (Seq::empty(), Seq::empty(), Seq::empty(), 0)
    } else {
        psi_field(psi_fields(parts, n - 1), parts[n - 1])
    }
}

pub type PsiFileView = (
    Option<(Seq<char>, Seq<char>, Seq<char>, nat)>,
    Option<(Seq<char>, Seq<char>, Seq<char>, nat)>,
);

/// The effect of one line: a `some` or `full` line replaces what was read
/// for its kind; blank lines and other kinds change nothing.
pub open spec fn psi_line(acc: PsiFileView, line: Seq<char>) -> PsiFileView {
    let w = words(line);
    if w.len() == 0 {
        acc
    } else {
        let vals = psi_fields(w.drop_first(), w.len() - 1);
        if w[0] == "some"@ {
            (Some(vals), acc.1)
        } else if w[0] == "full"@ {
            (acc.0, Some(vals))
        } else {
            acc
        }
    }
}

/// What the first `n` lines of a pressure file say.
pub open spec fn psi_lines(ls: Seq<Seq<char>>, n: int) -> PsiFileView
    decreases n,
{
    if n <= 0 {
        (None, None)
    } else {
        psi_line(psi_lines(ls, n - 1), ls[n - 1])
    }
}

/// What a pressure file says.
pub open spec fn psi_text(text: Seq<char>) -> PsiFileView {
    psi_lines(lines(text), lines(text).len() as int)
}

fn field_text(v: &Vec<char>) -> (s: String)
    ensures
        s@ == v@,
{
    string_from_chars(v.as_slice())
}

/// Reads the fields after a line's kind.
fn parse_fields(w: &Vec<Vec<char>>) -> (r: PsiFields)
    requires
        w@.len() >= 1,
    ensures
        fields_view(r) == psi_fields(seqs(w@).drop_first(), w@.len() - 1),
{
    let ghost parts = seqs(w@).drop_first();
    let mut a10: Vec<char> = Vec::new();
    let mut a60: Vec<char> = Vec::new();
    let mut a300: Vec<char> = Vec::new();
    let mut total: u64 = 0;
    let mut k: usize = 1;
    while k < w.len()
        invariant
            1 <= k <= w@.len(),
            parts == seqs(w@).drop_first(),
            (a10@, a60@, a300@, total as nat) == psi_fields(parts, k - 1),
        decreases w.len() - k,
    {
        assert(parts[k - 1] == w@[k as int]@);
        let part = &w[k];
        match split_once_chars(part.as_slice(), '=') {
            Some((key, val)) => {
                let eq = vec!['='];
                assert(eq@ =~= seq!['=']);
                if !contains_chars(val.as_slice(), eq.as_slice()) {
                    let k10 = chars_of("avg10");
                    let k60 = chars_of("avg60");
                    let k300 = chars_of("avg300");
                    let kt = chars_of("total");
                    if chars_eq(key.as_slice(), k10.as_slice()) {
                        a10 = val;
                    } else if chars_eq(key.as_slice(), k60.as_slice()) {
                        a60 = val;
                    } else if chars_eq(key.as_slice(), k300.as_slice()) {
                        a300 = val;
                    } else if chars_eq(key.as_slice(), kt.as_slice()) {
                        total = number_or_zero_u64(val.as_slice());
                    }
                }
            },
            None => {},
        }
        k += 1;
    }
    PsiFields { avg10: field_text(&a10), avg60: field_text(&a60), avg300: field_text(&a300), total }
}

/// Reads the `some` and `full` lines of a pressure file.
pub fn parse_psi(text: &str) -> (r: PsiFile)
    ensures
        (opt_fields_view(r.some), opt_fields_view(r.full)) == psi_text(text@),
{
    let cs = chars_of(text);
    let ls = split_lines(cs.as_slice());
    let ghost lv = seqs(ls@);
    let some_kw = chars_of("some");
    let full_kw = chars_of("full");
    let mut some: Option<PsiFields> = None;
    let mut full: Option<PsiFields> = None;
    let mut k: usize = 0;
    while k < ls.len()
        invariant
            k <= ls@.len(),
            lv == seqs(ls@),
            lv == lines(text@),
            some_kw@ == "some"@,
            full_kw@ == "full"@,
            (opt_fields_view(some), opt_fields_view(full)) == psi_lines(lv, k as int),
        decreases ls.len() - k,
    {
        assert(ls@[k as int]@ == lv[k as int]);
        let w = split_words(&ls[k]);
        if w.len() > 0 {
            assert(w@[0]@ == seqs(w@)[0]);
            assert(seqs(w@).drop_first().len() == w@.len() - 1);
            if chars_eq(w[0].as_slice(), some_kw.as_slice()) {
                some = Some(parse_fields(&w));
            } else if chars_eq(w[0].as_slice(), full_kw.as_slice()) {
                full = Some(parse_fields(&w));
            }
        }
        k += 1;
    }
    (PsiFile { some, full })
}

/// The five readings the interface shows, when every one of them was read:
/// the `some` line of the CPU file and both lines of the memory and I/O
/// files. A file that could not be read is `None`.
pub fn psi_readings(cpu: Option<PsiFile>, memory: Option<PsiFile>, io: Option<PsiFile>) -> (r: Option<
    PsiReadings,
>)
    ensures
        r is Some <==> (cpu matches Some(c) && c.some is Some) && (memory matches Some(m) && m.some is Some
            && m.full is Some) && (io matches Some(i) && i.some is Some && i.full is Some),
        r matches Some(x) ==> Some(x.cpu_some) == cpu->0.some && Some(x.memory_some) == memory->0.some
            && Some(x.memory_full) == memory->0.full && Some(x.io_some) == io->0.some && Some(x.io_full)
            == io->0.full,
{
    match (cpu, memory, io) {
        (Some(c), Some(m), Some(i)) => match (c.some, m.some, m.full, i.some, i.full) {
            (Some(cs), Some(ms), Some(mf), Some(is_), Some(if_)) => Some(
                PsiReadings { cpu_some: cs, memory_some: ms, memory_full: mf, io_some: is_, io_full: if_ },
            ),
            _ => None,
        },
        _ => None,
    }
}

} // verus!
