//! CPU time breakdown from `/proc/stat`: the counters of the aggregate `cpu`
//! line and of the context-switch and interrupt lines, and the tick deltas
//! between two samples.
use vstd::prelude::*;
use crate::text::{
    chars_of, lines, number_or_zero, number_or_zero_u64, seqs, split_lines, split_words,
    starts_with, starts_with_chars, words, lemma_single_line, parse_unsigned,
};

verus! {

/// The monotonic clock of the standard library.
#[verifier::external_type_specification]
#[verifier::external_body]
pub struct ExInstant(std::time::Instant);

/// Cumulative counters from one reading of `/proc/stat`.
#[derive(Clone, Copy, Debug, Default, PartialEq, Eq, Structural)]
pub struct ProcStatSample {
    pub user: u64,
    pub nice: u64,
    pub system: u64,
    pub idle: u64,
    pub iowait: u64,
    pub irq: u64,
    pub softirq: u64,
    pub steal: u64,
    pub ctx_switches: u64,
    pub interrupts: u64,
}

pub open spec fn nz(s: Seq<char>) -> u64 {
    number_or_zero(s, u64::MAX as nat) as u64
}

/// The effect of one line of `/proc/stat`.
pub open spec fn proc_stat_line(c: ProcStatSample, line: Seq<char>) -> ProcStatSample {
    if starts_with(line, "cpu "@) {
        let p = words(line);
        if p.len() >= 9 {
            ProcStatSample {
                user: nz(p[1]),
                nice: nz(p[2]),
                system: nz(p[3]),
                idle: nz(p[4]),
                iowait: nz(p[5]),
                irq: nz(p[6]),
                softirq: nz(p[7]),
                steal: nz(p[8]),
                ..c
            }
        } else {
            c
        }
    } else if starts_with(line, "ctxt "@) {
        let p = words(line);
        if p.len() >= 2 {
            ProcStatSample { ctx_switches: nz(p[1]), ..c }
        } else {
            c
        }
    } else if starts_with(line, "intr "@) {
        let p = words(line);
        if p.len() >= 2 {
            ProcStatSample { interrupts: nz(p[1]), ..c }
        } else {
            c
        }
    } else {
        c
    }
}

pub open spec fn proc_stat_lines(ls: Seq<Seq<char>>, n: int) -> ProcStatSample
    decreases n,
{
    if n <= 0 {
        ProcStatSample {
            user: 0,
            nice: 0,
            system: 0,
            idle: 0,
            iowait: 0,
            irq: 0,
            softirq: 0,
            steal: 0,
            ctx_switches: 0,
            interrupts: 0,
        }
    } else {
        proc_stat_line(proc_stat_lines(ls, n - 1), ls[n - 1])
    }
}

/// The sample that the text of `/proc/stat` holds.
pub open spec fn proc_stat_of(content: Seq<char>) -> ProcStatSample {
    proc_stat_lines(lines(content), lines(content).len() as int)
}

fn proc_stat_line_exec(c: &mut ProcStatSample, line: &Vec<char>)
    ensures
        *final(c) == proc_stat_line(*old(c), line@),
{
    if starts_with_chars(line.as_slice(), chars_of("cpu ").as_slice()) {
        let p = split_words(line);
        if p.len() >= 9 {
            proof {
                assert forall|k: int| 0 <= k < 9 implies p@[k]@ == #[trigger] seqs(p@)[k] by {}
            }
            c.user = number_or_zero_u64(p[1].as_slice());
            c.nice = number_or_zero_u64(p[2].as_slice());
            c.system = number_or_zero_u64(p[3].as_slice());
            c.idle = number_or_zero_u64(p[4].as_slice());
            c.iowait = number_or_zero_u64(p[5].as_slice());
            c.irq = number_or_zero_u64(p[6].as_slice());
            c.softirq = number_or_zero_u64(p[7].as_slice());
            c.steal = number_or_zero_u64(p[8].as_slice());
            assert(seqs(p@)[1] == p@[1]@ && seqs(p@)[2] == p@[2]@ && seqs(p@)[3] == p@[3]@);
            assert(seqs(p@)[4] == p@[4]@ && seqs(p@)[5] == p@[5]@ && seqs(p@)[6] == p@[6]@);
            assert(seqs(p@)[7] == p@[7]@ && seqs(p@)[8] == p@[8]@);
        }
    } else if starts_with_chars(line.as_slice(), chars_of("ctxt ").as_slice()) {
        let p = split_words(line);
        if p.len() >= 2 {
            assert(seqs(p@)[1] == p@[1]@);
            c.ctx_switches = number_or_zero_u64(p[1].as_slice());
        }
    } else if starts_with_chars(line.as_slice(), chars_of("intr ").as_slice()) {
        let p = split_words(line);
        if p.len() >= 2 {
            assert(seqs(p@)[1] == p@[1]@);
            c.interrupts = number_or_zero_u64(p[1].as_slice());
        }
    }
}

/// Reads the aggregate `cpu` line (user, nice, system, idle, iowait, irq,
/// softirq and steal ticks) and the `ctxt` and `intr` totals of `/proc/stat`;
/// what is absent or does not read stays 0.
pub fn parse_proc_stat(content: &str) -> (r: ProcStatSample)
    ensures
        r == proc_stat_of(content@),
{
    let cs = chars_of(content);
    let ls = split_lines(cs.as_slice());
    let ghost lv = seqs(ls@);
    let mut sample = ProcStatSample {
        user: 0,
        nice: 0,
        system: 0,
        idle: 0,
        iowait: 0,
        irq: 0,
        softirq: 0,
        steal: 0,
        ctx_switches: 0,
        interrupts: 0,
    };
    let mut k: usize = 0;
    while k < ls.len()
        invariant
            k <= ls.len(),
            lv == seqs(ls@),
            lv == lines(content@),
            sample == proc_stat_lines(lv, k as int),
        decreases ls.len() - k,
    {
        assert(ls@[k as int]@ == lv[k as int]);
        proc_stat_line_exec(&mut sample, &ls[k]);
        k += 1;
    }
    sample
}

/// The number a word of `/proc/stat` gives: its value, or 0 when it does
/// not read as a 64-bit number.
pub open spec fn counter_word(w: Seq<char>) -> nat {
    match parse_unsigned(w, u64::MAX as nat) {
        Some(v) => v,
        None => 0,
    }
}

proof fn lemma_nz(w: Seq<char>)
    ensures
        nz(w) as nat == counter_word(w),
{
}

/// The aggregate `cpu` line of nine words or more gives, in this order, the
/// user, nice, system, idle, iowait, irq, softirq and steal ticks: the 2nd
/// to the 9th words (iowait the 6th, steal the 9th). The context-switch and
/// interrupt totals are left as they were.
pub proof fn law_cpu_line_fields(c: ProcStatSample, line: Seq<char>)
    requires
        starts_with(line, "cpu "@),
        words(line).len() >= 9,
    ensures
        proc_stat_line(c, line).user == counter_word(words(line)[1]),
        proc_stat_line(c, line).nice == counter_word(words(line)[2]),
        proc_stat_line(c, line).system == counter_word(words(line)[3]),
        proc_stat_line(c, line).idle == counter_word(words(line)[4]),
        proc_stat_line(c, line).iowait == counter_word(words(line)[5]),
        proc_stat_line(c, line).irq == counter_word(words(line)[6]),
        proc_stat_line(c, line).softirq == counter_word(words(line)[7]),
        proc_stat_line(c, line).steal == counter_word(words(line)[8]),
        proc_stat_line(c, line).ctx_switches == c.ctx_switches,
        proc_stat_line(c, line).interrupts == c.interrupts,
{
    let w = words(line);
    lemma_nz(w[1]);
    lemma_nz(w[2]);
    lemma_nz(w[3]);
    lemma_nz(w[4]);
    lemma_nz(w[5]);
    lemma_nz(w[6]);
    lemma_nz(w[7]);
    lemma_nz(w[8]);
}

proof fn lemma_prefixes_differ(line: Seq<char>)
    ensures
        starts_with(line, "ctxt "@) ==> !starts_with(line, "cpu "@) && !starts_with(line, "intr "@),
        starts_with(line, "intr "@) ==> !starts_with(line, "cpu "@),
{
    reveal_strlit("cpu ");
    reveal_strlit("ctxt ");
    reveal_strlit("intr ");
    if starts_with(line, "ctxt "@) {
        assert(line[1] == line.take(5)[1]);
        assert(line.take(5)[1] == 't');
        if starts_with(line, "cpu "@) {
            assert(line.take(4)[1] == line[1]);
        }
        assert(line[0] == line.take(5)[0]);
        if starts_with(line, "intr "@) {
            assert(line.take(5)[0] == 'i');
        }
    }
    if starts_with(line, "intr "@) {
        assert(line[0] == line.take(5)[0]);
        assert(line.take(5)[0] == 'i');
        if starts_with(line, "cpu "@) {
            assert(line.take(4)[0] == line[0]);
        }
    }
}

/// The `ctxt` line of two words or more sets the context-switch total to its
/// 2nd word and the `intr` line sets the interrupt total to its 2nd word;
/// nothing else changes. A line that is none of `cpu`, `ctxt` and `intr`
/// changes nothing, and neither does one of them that is too short (a `cpu`
/// line of fewer than nine words, a `ctxt` or `intr` line of one word).
pub proof fn law_event_lines(c: ProcStatSample, line: Seq<char>)
    ensures
        starts_with(line, "ctxt "@) && words(line).len() >= 2 ==> proc_stat_line(c, line) == (ProcStatSample {
            ctx_switches: proc_stat_line(c, line).ctx_switches,
            ..c
        }) && proc_stat_line(c, line).ctx_switches == counter_word(words(line)[1]),
        starts_with(line, "intr "@) && words(line).len() >= 2 ==> proc_stat_line(c, line) == (ProcStatSample {
            interrupts: proc_stat_line(c, line).interrupts,
            ..c
        }) && proc_stat_line(c, line).interrupts == counter_word(words(line)[1]),
        !starts_with(line, "cpu "@) && !starts_with(line, "ctxt "@) && !starts_with(line, "intr "@)
            ==> proc_stat_line(c, line) == c,
        starts_with(line, "cpu "@) && words(line).len() < 9 ==> proc_stat_line(c, line) == c,
        starts_with(line, "ctxt "@) && words(line).len() < 2 ==> proc_stat_line(c, line) == c,
        starts_with(line, "intr "@) && words(line).len() < 2 ==> proc_stat_line(c, line) == c,
{
    lemma_prefixes_differ(line);
    if words(line).len() >= 2 {
        lemma_nz(words(line)[1]);
    }
}

/// Reading `/proc/stat` takes the CPU ticks from the last `cpu` line: when
/// line `n - 1` is one, the sample's ticks are that line's words, whatever
/// came before.
pub proof fn law_last_cpu_line_wins(ls: Seq<Seq<char>>, n: int)
    requires
        1 <= n <= ls.len(),
        starts_with(ls[n - 1], "cpu "@),
        words(ls[n - 1]).len() >= 9,
    ensures
        proc_stat_lines(ls, n).iowait == counter_word(words(ls[n - 1])[5]),
        proc_stat_lines(ls, n).steal == counter_word(words(ls[n - 1])[8]),
        proc_stat_lines(ls, n).user == counter_word(words(ls[n - 1])[1]),
        proc_stat_lines(ls, n).system == counter_word(words(ls[n - 1])[3]),
        proc_stat_lines(ls, n).idle == counter_word(words(ls[n - 1])[4]),
{
    law_cpu_line_fields(proc_stat_lines(ls, n - 1), ls[n - 1]);
}

/// A `/proc/stat` text of just the aggregate line (with or without its line
/// break) reads as that line's ticks, iowait from the 6th word and steal
/// from the 9th, with no context switches or interrupts.
pub proof fn law_parse_cpu_line(line: Seq<char>)
    requires
        starts_with(line, "cpu "@),
        words(line).len() >= 9,
        forall|k: int| 0 <= k < line.len() ==> line[k] != '\n',
        line.last() != '\r',
    ensures
        proc_stat_of(line).iowait == counter_word(words(line)[5]),
        proc_stat_of(line).steal == counter_word(words(line)[8]),
        proc_stat_of(line).user == counter_word(words(line)[1]),
        proc_stat_of(line).idle == counter_word(words(line)[4]),
        proc_stat_of(line).ctx_switches == 0,
        proc_stat_of(line.push('\n')) == proc_stat_of(line),
{
    reveal_strlit("cpu ");
    lemma_single_line(line);
    let z = proc_stat_lines(seq![line], 0);
    assert(proc_stat_of(line) == proc_stat_line(z, line));
    law_cpu_line_fields(z, line);
}

/// `a.saturating_sub(b)`.
pub open spec fn sat_sub(a: u64, b: u64) -> nat {
    if a >= b {
        (a - b) as nat
    } else {
        0
    }
}

/// The sum of the tick deltas of all eight CPU states.
pub open spec fn total_tick_delta(prev: ProcStatSample, curr: ProcStatSample) -> nat {
    sat_sub(curr.user, prev.user) + sat_sub(curr.nice, prev.nice) + sat_sub(curr.system, prev.system)
        + sat_sub(curr.idle, prev.idle) + sat_sub(curr.iowait, prev.iowait) + sat_sub(
        curr.irq,
        prev.irq,
    ) + sat_sub(curr.softirq, prev.softirq) + sat_sub(curr.steal, prev.steal)
}

/// Tick and event deltas between two `/proc/stat` samples, grouped as the
/// CPU breakdown shows them.
#[derive(Clone, Copy, Debug, PartialEq, Eq, Structural)]
pub struct CpuTickDeltas {
    /// user + nice
    pub user: u64,
    /// system + irq + softirq
    pub system: u64,
    pub iowait: u64,
    pub steal: u64,
    pub total: u64,
    pub ctx_switches: u64,
    pub interrupts: u64,
}

/// `d` holds the deltas (each counter's increase, 0 if it went down) between
/// two samples, grouped as the CPU breakdown shows them.
pub open spec fn deltas_between(d: CpuTickDeltas, prev: ProcStatSample, curr: ProcStatSample) -> bool {
    &&& d.user == sat_sub(curr.user, prev.user) + sat_sub(curr.nice, prev.nice)
    &&& d.system == sat_sub(curr.system, prev.system) + sat_sub(curr.irq, prev.irq) + sat_sub(
        curr.softirq,
        prev.softirq,
    )
    &&& d.iowait == sat_sub(curr.iowait, prev.iowait)
    &&& d.steal == sat_sub(curr.steal, prev.steal)
    &&& d.total == total_tick_delta(prev, curr)
    &&& d.ctx_switches == sat_sub(curr.ctx_switches, prev.ctx_switches)
    &&& d.interrupts == sat_sub(curr.interrupts, prev.interrupts)
}

/// The deltas (each counter's increase, 0 if it went down) between two
/// samples.
pub fn tick_deltas(prev: &ProcStatSample, curr: &ProcStatSample) -> (r: CpuTickDeltas)
    requires
        total_tick_delta(*prev, *curr) <= u64::MAX,
    ensures
        deltas_between(r, *prev, *curr),
{
    let d_user = curr.user.saturating_sub(prev.user);
    let d_nice = curr.nice.saturating_sub(prev.nice);
    let d_system = curr.system.saturating_sub(prev.system);
    let d_idle = curr.idle.saturating_sub(prev.idle);
    let d_iowait = curr.iowait.saturating_sub(prev.iowait);
    let d_irq = curr.irq.saturating_sub(prev.irq);
    let d_softirq = curr.softirq.saturating_sub(prev.softirq);
    let d_steal = curr.steal.saturating_sub(prev.steal);
    CpuTickDeltas {
        user: d_user + d_nice,
        system: d_system + d_irq + d_softirq,
        iowait: d_iowait,
        steal: d_steal,
        total: d_user + d_nice + d_system + d_idle + d_iowait + d_irq + d_softirq + d_steal,
        ctx_switches: curr.ctx_switches.saturating_sub(prev.ctx_switches),
        interrupts: curr.interrupts.saturating_sub(prev.interrupts),
    }
}

/// The deltas between two samples, or `None` when the increases of the
/// eight CPU states add up to more than 64 bits hold.
pub fn tick_deltas_checked(prev: &ProcStatSample, curr: &ProcStatSample) -> (r: Option<CpuTickDeltas>)
    ensures
        r is None <==> total_tick_delta(*prev, *curr) > u64::MAX,
        r matches Some(d) ==> deltas_between(d, *prev, *curr),
{
    let parts: [u64; 8] = [
        curr.user.saturating_sub(prev.user),
        curr.nice.saturating_sub(prev.nice),
        curr.system.saturating_sub(prev.system),
        curr.idle.saturating_sub(prev.idle),
        curr.iowait.saturating_sub(prev.iowait),
        curr.irq.saturating_sub(prev.irq),
        curr.softirq.saturating_sub(prev.softirq),
        curr.steal.saturating_sub(prev.steal),
    ];
    let mut sum: u128 = 0;
    let mut i: usize = 0;
    while i < 8
        invariant
            i <= 8,
            parts@.len() == 8,
            sum as int == parts_sum(parts@, i as int),
            sum <= i * 0xffff_ffff_ffff_ffffu128,
            forall|j: int| 0 <= j < 8 ==> parts@[j] <= u64::MAX,
        decreases 8 - i,
    {
        sum = sum + parts[i] as u128;
        i += 1;
    }
    assert(parts_sum(parts@, 8) == total_tick_delta(*prev, *curr)) by {
        reveal_with_fuel(parts_sum, 9);
    }
    if sum > u64::MAX as u128 {
        None
    } else {
        Some(tick_deltas(prev, curr))
    }
}

spec fn parts_sum(p: Seq<u64>, n: int) -> int
    decreases n,
{
    if n <= 0 {
        0
    } else {
        parts_sum(p, n - 1) + p[n - 1]
    }
}

/// Keeps the previous `/proc/stat` sample and when it was taken.
pub struct CpuTimesCollector {
    pub prev: Option<(ProcStatSample, std::time::Instant)>,
}

impl CpuTimesCollector {
    pub fn new() -> (r: Self)
        ensures
            r.prev is None,
    {
        CpuTimesCollector { prev: None }
    }

    /// Records a new sample and returns the one it replaces.
    pub fn record(&mut self, sample: ProcStatSample, at: std::time::Instant) -> (r: Option<
        (ProcStatSample, std::time::Instant),
    >)
        ensures
            r == old(self).prev,
            final(self).prev == Some((sample, at)),
    {
        let r = self.prev.take();
        self.prev = Some((sample, at));
        r
    }
}

} // verus!
