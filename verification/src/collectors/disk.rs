//! Block device helpers: short device names, the counters of
//! `/proc/diskstats` and `/proc/<pid>/io`, and the device selector's entries.
use vstd::prelude::*;
use std::collections::HashMap;
use crate::collectors::ports::string_views;
use crate::order::{
    insert_sorted_unique, lemma_insort_by_at, lemma_sort_by_key, lex_lt, lex_lt_exec, sort_by_key,
    sorted_by_key, strictly_sorted,
};
use crate::text::{
    trim, trim_chars, parse_unsigned, parse_u64,
    append_chars, chars_of, lines, number_or_zero, number_or_zero_u64, seqs, split_lines, split_words,
    starts_with, starts_with_chars, string_from_chars, strip_prefix, strip_prefix_chars, words,
};

verus! {

broadcast use vstd::std_specs::hash::group_hash_axioms;

/// A device as the disk selector lists it.
#[derive(Clone, Debug)]
pub struct DiskSelectorEntry {
    pub device_short: String,
    pub device_full: String,
    pub mount_point: String,
    pub total_bytes: u64,
}

/// The device name without a leading `/dev/`.
pub open spec fn short_name(full: Seq<char>) -> Seq<char> {
    match strip_prefix(full, "/dev/"@) {
        Some(r) => r,
        None => full,
    }
}

/// `/dev/nvme0n1p1` → `nvme0n1p1`; names without `/dev/` are kept.
pub fn device_short_name(full: &str) -> (r: String)
    ensures
        r@ == short_name(full@),
{
    let cs = chars_of(full);
    match strip_prefix_chars(cs.as_slice(), chars_of("/dev/").as_slice()) {
        Some(r) => string_from_chars(r.as_slice()),
        None => full.to_owned(),
    }
}

/// Sectors read and written by one device, from a line of `/proc/diskstats`.
#[derive(Clone, Debug)]
pub struct DiskstatsRow {
    pub name: String,
    pub sectors_read: u64,
    pub sectors_written: u64,
}

pub open spec fn row_view(r: DiskstatsRow) -> (Seq<char>, nat, nat) {
    (r.name@, r.sectors_read as nat, r.sectors_written as nat)
}

/// The row a line of `/proc/diskstats` gives: lines with fewer than 10 fields
/// give none; the name is field 2, sectors read field 5, sectors written
/// field 9 (0 when a count does not read).
pub open spec fn diskstats_row(line: Seq<char>) -> Option<(Seq<char>, nat, nat)> {
    let f = words(line);
    if f.len() < 10 {
        None
    } else {
        Some((f[2], number_or_zero(f[5], u64::MAX as nat), number_or_zero(f[9], u64::MAX as nat)))
    }
}

/// The rows of the first `n` lines, in order.
pub open spec fn diskstats_rows(ls: Seq<Seq<char>>, n: int) -> Seq<(Seq<char>, nat, nat)>
    decreases n,
{
    if n <= 0 {
        seq![]
    } else {
        match diskstats_row(ls[n - 1]) {
            Some(r) => diskstats_rows(ls, n - 1).push(r),
            None => diskstats_rows(ls, n - 1),
        }
    }
}

/// Reads the per-device rows of `/proc/diskstats`, in order.
pub fn parse_diskstats(content: &str) -> (r: Vec<DiskstatsRow>)
    ensures
        r@.map_values(|x: DiskstatsRow| row_view(x)) == diskstats_rows(
            lines(content@),
            lines(content@).len() as int,
        ),
{
    let cs = chars_of(content);
    let ls = split_lines(cs.as_slice());
    let ghost lv = seqs(ls@);
    let mut out: Vec<DiskstatsRow> = Vec::new();
    let mut k: usize = 0;
    while k < ls.len()
        invariant
            k <= ls.len(),
            lv == seqs(ls@),
            lv == lines(content@),
            out@.map_values(|x: DiskstatsRow| row_view(x)) == diskstats_rows(lv, k as int),
        decreases ls.len() - k,
    {
        assert(ls@[k as int]@ == lv[k as int]);
        let f = split_words(&ls[k]);
        let ghost fv = seqs(f@);
        let ghost before = out@;
        if f.len() >= 10 {
            assert(f@[2]@ == fv[2] && f@[5]@ == fv[5] && f@[9]@ == fv[9]);
            let row = DiskstatsRow {
                name: string_from_chars(f[2].as_slice()),
                sectors_read: number_or_zero_u64(f[5].as_slice()),
                sectors_written: number_or_zero_u64(f[9].as_slice()),
            };
            out.push(row);
            assert(out@.map_values(|x: DiskstatsRow| row_view(x)) =~= before.map_values(
                |x: DiskstatsRow| row_view(x),
            ).push(diskstats_row(lv[k as int])->0));
        }
        k += 1;
    }
    out
}

/// The device name a `/proc/diskstats` line names, unless it is a loop or
/// RAM device.
pub open spec fn diskstats_candidate(line: Seq<char>) -> Option<Seq<char>> {
    let f = words(line);
    if f.len() < 3 || starts_with(f[2], "loop"@) || starts_with(f[2], "ram"@) {
        None
    } else {
        Some(f[2])
    }
}

/// The device names of `/proc/diskstats`, without loop and RAM devices,
/// sorted and without duplicates.
pub fn diskstats_names(content: &str) -> (r: Vec<String>)
    ensures
        strictly_sorted(string_views(r@)),
        forall|x: Seq<char>| #[trigger] string_views(r@).contains(x) <==> exists|k: int|
            0 <= k < lines(content@).len() && diskstats_candidate(#[trigger] lines(content@)[k])
                == Some(x),
{
    let cs = chars_of(content);
    let ls = split_lines(cs.as_slice());
    let ghost lv = seqs(ls@);
    let lp = chars_of("loop");
    let rp = chars_of("ram");
    let mut acc: Vec<Vec<char>> = Vec::new();
    let mut k: usize = 0;
    while k < ls.len()
        invariant
            k <= ls.len(),
            lv == seqs(ls@),
            lv == lines(content@),
            lp@ == "loop"@,
            rp@ == "ram"@,
            strictly_sorted(seqs(acc@)),
            forall|x: Seq<char>| #[trigger] seqs(acc@).contains(x) <==> exists|j: int|
                0 <= j < k && diskstats_candidate(#[trigger] lv[j]) == Some(x),
        decreases ls.len() - k,
    {
        assert(ls@[k as int]@ == lv[k as int]);
        let f = split_words(&ls[k]);
        let ghost fv = seqs(f@);
        let ghost before = seqs(acc@);
        if f.len() >= 3 && !starts_with_chars(f[2].as_slice(), lp.as_slice())
            && !starts_with_chars(f[2].as_slice(), rp.as_slice()) {
            assert(f@[2]@ == fv[2]);
            let name = f[2].clone();
            insert_sorted_unique(&mut acc, name);
            assert forall|x: Seq<char>| #[trigger] seqs(acc@).contains(x) <==> exists|j: int|
                0 <= j < k + 1 && diskstats_candidate(#[trigger] lv[j]) == Some(x) by {
                if x == fv[2] {
                    assert(diskstats_candidate(lv[k as int]) == Some(x));
                }
                if exists|j: int| 0 <= j < k + 1 && diskstats_candidate(#[trigger] lv[j]) == Some(x) {
                    let j = choose|j: int| 0 <= j < k + 1 && diskstats_candidate(#[trigger] lv[j]) == Some(x);
                    if j < k {
                        assert(before.contains(x));
                    }
                }
            }
        } else {
            if f.len() >= 3 {
                assert(f@[2]@ == fv[2]);
            }
            assert(diskstats_candidate(lv[k as int]) is None);
            assert forall|x: Seq<char>| #[trigger] seqs(acc@).contains(x) <==> exists|j: int|
                0 <= j < k + 1 && diskstats_candidate(#[trigger] lv[j]) == Some(x) by {
                if exists|j: int| 0 <= j < k + 1 && diskstats_candidate(#[trigger] lv[j]) == Some(x) {
                    let j = choose|j: int| 0 <= j < k + 1 && diskstats_candidate(#[trigger] lv[j]) == Some(x);
                    assert(j < k);
                }
            }
        }
        k += 1;
    }
    let ghost av = seqs(acc@);
    let mut out: Vec<String> = Vec::new();
    let mut m: usize = 0;
    while m < acc.len()
        invariant
            m <= acc.len(),
            av == seqs(acc@),
            string_views(out@) == av.take(m as int),
        decreases acc.len() - m,
    {
        let s = string_from_chars(acc[m].as_slice());
        assert(s@ == av[m as int]);
        let ghost prev = out@;
        out.push(s);
        assert(out@ == prev.push(s));
        assert(string_views(prev).len() == prev.len());
        assert(prev.len() == m);
        assert(out@.len() == m + 1);
        assert(string_views(out@).len() == m + 1);
        assert(out@[m as int] == s);
        assert(string_views(out@)[m as int] == s@);
        assert forall|i: int| 0 <= i <= m implies #[trigger] string_views(out@)[i] == av[i] by {
            if i < m {
                assert(string_views(prev)[i] == av.take(m as int)[i]);
                assert(out@[i] == prev[i]);
            }
        }
        m += 1;
        assert(string_views(out@) =~= av.take(m as int));
    }
    assert(av.take(acc.len() as int) =~= av);
    out
}

/// The effect of one line of `/proc/<pid>/io` on (bytes read, bytes written).
pub open spec fn proc_io_line(c: (nat, nat), line: Seq<char>) -> (nat, nat) {
    let w = words(line);
    if starts_with(line, "read_bytes:"@) {
        if w.len() >= 2 {
            (number_or_zero(w[1], u64::MAX as nat), c.1)
        } else {
            c
        }
    } else if starts_with(line, "write_bytes:"@) {
        if w.len() >= 2 {
            (c.0, number_or_zero(w[1], u64::MAX as nat))
        } else {
            c
        }
    } else {
        c
    }
}

pub open spec fn proc_io_lines(ls: Seq<Seq<char>>, n: int) -> (nat, nat)
    decreases n,
{
    if n <= 0 {
        (0, 0)
    } else {
        proc_io_line(proc_io_lines(ls, n - 1), ls[n - 1])
    }
}

/// Reads the `read_bytes:` and `write_bytes:` totals of `/proc/<pid>/io`.
pub fn parse_proc_io(content: &str) -> (r: (u64, u64))
    ensures
        (r.0 as nat, r.1 as nat) == proc_io_lines(lines(content@), lines(content@).len() as int),
{
    let cs = chars_of(content);
    let ls = split_lines(cs.as_slice());
    let ghost lv = seqs(ls@);
    let rb = chars_of("read_bytes:");
    let wb = chars_of("write_bytes:");
    let mut read: u64 = 0;
    let mut written: u64 = 0;
    let mut k: usize = 0;
    while k < ls.len()
        invariant
            k <= ls.len(),
            lv == seqs(ls@),
            lv == lines(content@),
            rb@ == "read_bytes:"@,
            wb@ == "write_bytes:"@,
            (read as nat, written as nat) == proc_io_lines(lv, k as int),
        decreases ls.len() - k,
    {
        assert(ls@[k as int]@ == lv[k as int]);
        let w = split_words(&ls[k]);
        if starts_with_chars(ls[k].as_slice(), rb.as_slice()) {
            if w.len() >= 2 {
                assert(w@[1]@ == seqs(w@)[1]);
                read = number_or_zero_u64(w[1].as_slice());
            }
        } else if starts_with_chars(ls[k].as_slice(), wb.as_slice()) {
            if w.len() >= 2 {
                assert(w@[1]@ == seqs(w@)[1]);
                written = number_or_zero_u64(w[1].as_slice());
            }
        }
        k += 1;
    }
    (read, written)
}


/// The outcome of reading `/proc/<pid>/io` for one process.
pub enum ProcIoRead {
    Content(String),
    PermissionDenied,
    Failed,
}

/// Bytes a process had read and written at a moment.
#[derive(Clone, Copy)]
pub struct ProcIoSnapshot {
    pub read_bytes: u64,
    pub write_bytes: u64,
    pub taken: std::time::Instant,
}

/// What a read of a process's counters reports: when an earlier sample of
/// the process exists, the increase of its read and written bytes since
/// then (0 where a counter went down) and when that sample was taken.
#[derive(Clone, Copy)]
pub struct ProcIoChange {
    pub pid: u32,
    pub increase: Option<(u64, u64, std::time::Instant)>,
}

/// Per-process I/O counters of the previous round.
pub struct DiskIoCollector {
    pub proc_prev: HashMap<u32, ProcIoSnapshot>,
}

pub open spec fn sat_sub(a: u64, b: u64) -> u64 {
    if a >= b { (a - b) as u64 } else { 0 }
}

/// One process's read outcome applied to the running state (previous
/// samples, changes reported, whether permission was refused).
pub open spec fn proc_io_step(
    st: (Map<u32, ProcIoSnapshot>, Seq<ProcIoChange>, bool),
    pid: u32,
    read: ProcIoRead,
    now: std::time::Instant,
) -> (Map<u32, ProcIoSnapshot>, Seq<ProcIoChange>, bool) {
    let (m, out, denied) = st;
    match read {
        ProcIoRead::Content(c) => {
            let (rb, wb) = proc_io_lines(lines(c@), lines(c@).len() as int);
            let snap = ProcIoSnapshot { read_bytes: rb as u64, write_bytes: wb as u64, taken: now };
            let inc = if m.contains_key(pid) {
                Some((sat_sub(rb as u64, m[pid].read_bytes), sat_sub(wb as u64, m[pid].write_bytes), m[pid].taken))
            } else {
                None
            };
            (m.insert(pid, snap), out.push(ProcIoChange { pid, increase: inc }), denied)
        },
        ProcIoRead::PermissionDenied => (m, out, true),
        ProcIoRead::Failed => (m, out, denied),
    }
}

/// The state after the first `n` processes.
pub open spec fn proc_io_fold(
    m: Map<u32, ProcIoSnapshot>,
    pids: Seq<u32>,
    reads: Seq<ProcIoRead>,
    now: std::time::Instant,
    n: int,
) -> (Map<u32, ProcIoSnapshot>, Seq<ProcIoChange>, bool)
    decreases n,
{
    if n <= 0 {
        (m, Seq::empty(), false)
    } else {
        proc_io_step(proc_io_fold(m, pids, reads, now, n - 1), pids[n - 1], reads[n - 1], now)
    }
}

impl DiskIoCollector {
    /// A collector with no earlier samples.
    pub fn new() -> (c: Self)
        ensures
            c.proc_prev@ == Map::<u32, ProcIoSnapshot>::empty(),
    {
        DiskIoCollector { proc_prev: HashMap::new() }
    }

    /// Records what reading `/proc/<pid>/io` gave for each of `pids` at
    /// `now`: for each process whose file was read, in order, the change
    /// against its previous sample; and whether any read was refused for
    /// lack of permission. Samples are then kept only for `pids`.
    pub fn process_io_rates(&mut self, pids: &[u32], reads: Vec<ProcIoRead>, now: std::time::Instant) -> (r: (
        Vec<ProcIoChange>,
        bool,
    ))
        requires
            reads@.len() == pids@.len(),
        ensures
            ({
                let (m, out, denied) = proc_io_fold(old(self).proc_prev@, pids@, reads@, now, pids@.len() as int);
                &&& r.0@ == out
                &&& r.1 == denied
                &&& final(self).proc_prev@ == m.restrict(pids@.to_set())
            }),
    {
        let ghost m0 = self.proc_prev@;
        let mut out: Vec<ProcIoChange> = Vec::new();
        let mut denied = false;
        let mut i: usize = 0;
        while i < pids.len()
            invariant
                i <= pids@.len(),
                reads@.len() == pids@.len(),
                (self.proc_prev@, out@, denied) == proc_io_fold(m0, pids@, reads@, now, i as int),
            decreases pids.len() - i,
        {
            let pid = pids[i];
            match &reads[i] {
                ProcIoRead::Content(c) => {
                    let (rb, wb) = parse_proc_io(c.as_str());
                    let inc = match self.proc_prev.get(&pid) {
                        Some(p) => Some((rb.saturating_sub(p.read_bytes), wb.saturating_sub(p.write_bytes), p.taken)),
                        None => None,
                    };
                    self.proc_prev.insert(pid, ProcIoSnapshot { read_bytes: rb, write_bytes: wb, taken: now });
                    out.push(ProcIoChange { pid, increase: inc });
                },
                ProcIoRead::PermissionDenied => {
                    denied = true;
                },
                ProcIoRead::Failed => {},
            }
            i += 1;
        }
        let ghost m = self.proc_prev@;
        let mut kept: HashMap<u32, ProcIoSnapshot> = HashMap::new();
        let mut k: usize = 0;
        while k < pids.len()
            invariant
                k <= pids@.len(),
                m == self.proc_prev@,
                kept@ == m.restrict(pids@.take(k as int).to_set()),
            decreases pids.len() - k,
        {
            let pid = pids[k];
            proof {
                assert(pids@.take(k as int + 1) =~= pids@.take(k as int).push(pid));
                pids@.take(k as int).lemma_push_to_set_commute(pid);
            }
            match self.proc_prev.get(&pid) {
                Some(p) => {
                    kept.insert(pid, *p);
                    assert(kept@ =~= m.restrict(pids@.take(k as int + 1).to_set()));
                },
                None => {
                    assert(kept@ =~= m.restrict(pids@.take(k as int + 1).to_set()));
                },
            }
            k += 1;
        }
        assert(pids@.take(pids@.len() as int) =~= pids@);
        self.proc_prev = kept;
        (out, denied)
    }
}

/// A mounted filesystem's device as the system reports it.
pub struct MountedDisk {
    pub device: String,
    pub mount_point: String,
    pub total_bytes: u64,
}

/// A selector entry as plain values: short name, full device path, mount
/// point, size in bytes.
pub type EntryView = (Seq<char>, Seq<char>, Seq<char>, u64);

pub open spec fn entry_view(e: DiskSelectorEntry) -> EntryView {
    (e.device_short@, e.device_full@, e.mount_point@, e.total_bytes)
}

pub open spec fn entry_views(s: Seq<DiskSelectorEntry>) -> Seq<EntryView> {
    s.map_values(|e: DiskSelectorEntry| entry_view(e))
}

/// The entry for a mounted device.
pub open spec fn mounted_entry(d: MountedDisk) -> EntryView {
    (short_name(d.device@), d.device@, d.mount_point@, d.total_bytes)
}

pub open spec fn mounted_entries(known: Seq<MountedDisk>) -> Seq<EntryView> {
    known.map_values(|d: MountedDisk| mounted_entry(d))
}

proof fn lemma_entry_views_push(s: Seq<DiskSelectorEntry>, e: DiskSelectorEntry)
    ensures
        entry_views(s.push(e)) == entry_views(s).push(entry_view(e)),
{
    assert(entry_views(s.push(e)) =~= entry_views(s).push(entry_view(e)));
}

proof fn lemma_known_push(k: Seq<MountedDisk>, d: MountedDisk)
    ensures
        mounted_entries(k.push(d)) == mounted_entries(k).push(mounted_entry(d)),
        known_shorts(k.push(d)) == known_shorts(k).push(short_name(d.device@)),
{
    assert(mounted_entries(k.push(d)) =~= mounted_entries(k).push(mounted_entry(d)));
    assert(known_shorts(k.push(d)) =~= known_shorts(k).push(short_name(d.device@)));
}

proof fn lemma_string_views_push(s: Seq<String>, x: String)
    ensures
        string_views(s.push(x)) == string_views(s).push(x@),
{
    assert(string_views(s.push(x)) =~= string_views(s).push(x@));
}

pub open spec fn known_shorts(known: Seq<MountedDisk>) -> Seq<Seq<char>> {
    known.map_values(|d: MountedDisk| short_name(d.device@))
}

/// Entries for the first `n` kernel block devices that no mounted device
/// names: path `/dev/<name>`, no mount point, the given size.
pub open spec fn extra_entries(known: Seq<MountedDisk>, names: Seq<Seq<char>>, sizes: Seq<u64>, n: int) -> Seq<
    EntryView,
>
    decreases n,
{
    if n <= 0 {
        Seq::empty()
    } else {
        let prev = extra_entries(known, names, sizes, n - 1);
        if known_shorts(known).contains(names[n - 1]) {
            prev
        } else {
            prev.push((names[n - 1], "/dev/"@ + names[n - 1], Seq::empty(), sizes[n - 1]))
        }
    }
}

/// The selector's entries before sorting: the mounted devices, then the
/// other block devices.
pub open spec fn selector_input(known: Seq<MountedDisk>, names: Seq<Seq<char>>, sizes: Seq<u64>) -> Seq<EntryView> {
    mounted_entries(known) + extra_entries(known, names, sizes, names.len() as int)
}

/// Short device name of an entry, the key the selector is ordered by.
pub open spec fn device_key() -> spec_fn(EntryView) -> Seq<char> {
    |e: EntryView| e.0
}

/// Stable sort by short device name: equal names keep their order.
pub open spec fn sort_by_device(s: Seq<EntryView>) -> Seq<EntryView> {
    sort_by_key(s, device_key())
}

/// The disk selector lists its entries in order of short device name and
/// loses or repeats none: the sorted list holds exactly the entries it was
/// given, as many times as they were given.
pub proof fn law_selector_sorted(s: Seq<EntryView>)
    ensures
        sorted_by_key(sort_by_device(s), device_key()),
        sort_by_device(s).to_multiset() == s.to_multiset(),
        sort_by_device(s).len() == s.len(),
{
    lemma_sort_by_key(s, device_key());
}

fn entry_key(e: &DiskSelectorEntry) -> (v: Vec<char>)
    ensures
        v@ == e.device_short@,
{
    chars_of(e.device_short.as_str())
}

fn clone_entry(e: &DiskSelectorEntry) -> (r: DiskSelectorEntry)
    ensures
        entry_view(r) == entry_view(*e),
{
    DiskSelectorEntry {
        device_short: e.device_short.clone(),
        device_full: e.device_full.clone(),
        mount_point: e.mount_point.clone(),
        total_bytes: e.total_bytes,
    }
}

/// Sorts entries by short device name, keeping the order of equal names.
fn sort_entries(v: &Vec<DiskSelectorEntry>) -> (r: Vec<DiskSelectorEntry>)
    ensures
        entry_views(r@) == sort_by_device(entry_views(v@)),
{
    let ghost input = entry_views(v@);
    let mut out: Vec<DiskSelectorEntry> = Vec::new();
    let mut i: usize = 0;
    while i < v.len()
        invariant
            i <= v@.len(),
            input == entry_views(v@),
            entry_views(out@) == sort_by_device(input.take(i as int)),
        decreases v.len() - i,
    {
        let x = clone_entry(&v[i]);
        let xk = entry_key(&x);
        let ghost xv = entry_view(x);
        let ghost s = entry_views(out@);
        assert(xv == input[i as int]);
        let mut j: usize = out.len();
        while j > 0 && lex_lt_exec(xk.as_slice(), entry_key(&out[j - 1]).as_slice())
            invariant
                j <= out@.len(),
                s == entry_views(out@),
                xk@ == xv.0,
                forall|k: int| j <= k < s.len() ==> lex_lt(xv.0, #[trigger] s[k].0),
            device_key()(xv) == xv.0,
            decreases j,
        {
            assert(s[j - 1] == entry_view(out@[j - 1]));
            j -= 1;
        }
        if j > 0 {
            assert(s[j - 1] == entry_view(out@[j - 1]));
        }
        proof {
            lemma_insort_by_at(s, xv, device_key(), j as int);
            assert(input.take(i as int + 1).drop_last() =~= input.take(i as int));
        }
        out.insert(j, x);
        assert(entry_views(out@) =~= s.take(j as int) + seq![xv] + s.skip(j as int));
        i += 1;
    }
    assert(input.take(v@.len() as int) =~= input);
    out
}

/// The device selector's entries: every mounted device, then each kernel
/// block device in `names` (with size `sizes[k]`) that no mounted device
/// names, all ordered by short device name with equal names kept in that
/// order.
pub fn build_selector_entries(known: &Vec<MountedDisk>, names: &Vec<String>, sizes: &Vec<u64>) -> (r: Vec<
    DiskSelectorEntry,
>)
    requires
        names@.len() == sizes@.len(),
    ensures
        entry_views(r@) == sort_by_device(selector_input(known@, string_views(names@), sizes@)),
{
    let mut entries: Vec<DiskSelectorEntry> = Vec::new();
    let mut shorts: Vec<String> = Vec::new();
    let mut i: usize = 0;
    while i < known.len()
        invariant
            i <= known@.len(),
            entry_views(entries@) == mounted_entries(known@.take(i as int)),
            string_views(shorts@) == known_shorts(known@.take(i as int)),
        decreases known.len() - i,
    {
        let d = &known[i];
        let short = device_short_name(d.device.as_str());
        let e = DiskSelectorEntry {
            device_short: short.clone(),
            device_full: d.device.clone(),
            mount_point: d.mount_point.clone(),
            total_bytes: d.total_bytes,
        };
        proof {
            assert(known@.take(i as int + 1) =~= known@.take(i as int).push(*d));
            lemma_known_push(known@.take(i as int), *d);
            lemma_entry_views_push(entries@, e);
            lemma_string_views_push(shorts@, short);
        }
        entries.push(e);
        shorts.push(short);
        i += 1;
    }
    assert(known@.take(known@.len() as int) =~= known@);
    let ghost mounted = entry_views(entries@);
    let ghost nv = string_views(names@);
    let dev = chars_of("/dev/");
    let mut k: usize = 0;
    while k < names.len()
        invariant
            k <= names@.len(),
            names@.len() == sizes@.len(),
            nv == string_views(names@),
            dev@ == "/dev/"@,
            string_views(shorts@) == known_shorts(known@),
            entry_views(entries@) == mounted + extra_entries(known@, nv, sizes@, k as int),
        decreases names.len() - k,
    {
        let name = &names[k];
        assert(nv[k as int] == name@);
        let mut found = false;
        let mut m: usize = 0;
        while m < shorts.len()
            invariant
                m <= shorts@.len(),
                string_views(shorts@) == known_shorts(known@),
                found <==> exists|q: int| 0 <= q < m && string_views(shorts@)[q] == name@,
            decreases shorts.len() - m,
        {
            assert(string_views(shorts@)[m as int] == shorts@[m as int]@);
            if shorts[m] == *name {
                found = true;
            }
            m += 1;
        }
        assert(found <==> known_shorts(known@).contains(name@)) by {
            if known_shorts(known@).contains(name@) {
                let q = choose|q: int| 0 <= q < known_shorts(known@).len() && known_shorts(known@)[q] == name@;
                assert(string_views(shorts@)[q] == name@);
            }
        }
        let ghost before = entries@;
        if !found {
            let mut full = dev.clone();
            let nc = chars_of(name.as_str());
            append_chars(&mut full, nc.as_slice());
            let e = DiskSelectorEntry {
                device_short: name.clone(),
                device_full: string_from_chars(full.as_slice()),
                mount_point: String::new(),
                total_bytes: sizes[k],
            };
            proof {
                lemma_entry_views_push(entries@, e);
                assert(entry_view(e).1 =~= "/dev/"@ + name@);
            }
            entries.push(e);
        }
        assert(entry_views(entries@) =~= mounted + extra_entries(known@, nv, sizes@, k as int + 1));
        k += 1;
    }
    sort_entries(&entries)
}

/// Bytes in a sector of `/sys/block/<name>/size`.
pub const SECTOR_SIZE: u64 = 512;

/// A device's size in bytes from the text of `/sys/block/<name>/size`: the
/// sector count, trimmed and read as a number, times the sector size,
/// saturating at the largest `u64`; 0 when the text does not read.
pub open spec fn block_size(content: Seq<char>) -> nat {
    match parse_unsigned(trim(content), u64::MAX as nat) {
        Some(sectors) => if sectors * (SECTOR_SIZE as nat) > u64::MAX {
            u64::MAX as nat
        } else {
            sectors * (SECTOR_SIZE as nat)
        },
        None => 0,
    }
}

/// The size in bytes that `/sys/block/<name>/size` gives (see `block_size`).
pub fn block_size_of(content: &str) -> (r: u64)
    ensures
        r as nat == block_size(content@),
{
    let t = trim_chars(chars_of(content).as_slice());
    match parse_u64(t.as_slice()) {
        Some(sectors) => if sectors > u64::MAX / SECTOR_SIZE {
            u64::MAX
        } else {
            sectors * SECTOR_SIZE
        },
        None => 0,
    }
}

} // verus!
