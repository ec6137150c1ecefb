//! Bounded sample histories and the time ranges the charts can show.
use vstd::prelude::*;
use std::collections::VecDeque;

verus! {

/// Most samples a history keeps: one hour at one sample per second.
pub const MAX_SAMPLES: usize = 3600;

/// The samples kept after appending `x` to `s` when at most `cap` may stay:
/// the newest `cap` of them, oldest first.
pub open spec fn bounded_push<T>(s: Seq<T>, x: T, cap: nat) -> Seq<T> {
    let t = s.push(x);
    if t.len() > cap {
        t.subrange(t.len() - cap, t.len() as int)
    } else {
        t
    }
}

/// A history of samples that never holds more than `MAX_SAMPLES` of them;
/// once full, each new sample pushes out the oldest.
pub struct BoundedHistory<T> {
    pub samples: VecDeque<T>,
}

impl<T> BoundedHistory<T> {
    /// The history never exceeds its bound.
    pub open spec fn wf(&self) -> bool {
        self.samples@.len() <= MAX_SAMPLES
    }

    /// An empty history.
    pub fn new() -> (h: Self)
        ensures
            h.wf(),
            h.samples@ == Seq::<T>::empty(),
    {
        BoundedHistory { samples: VecDeque::with_capacity(MAX_SAMPLES) }
    }

    /// Appends a sample, dropping the oldest one when the history is full.
    pub fn push(&mut self, sample: T)
        requires
            old(self).wf(),
        ensures
            final(self).wf(),
            final(self).samples@ == bounded_push(old(self).samples@, sample, MAX_SAMPLES as nat),
    {
        let ghost before = self.samples@;
        if self.samples.len() >= MAX_SAMPLES {
            self.samples.pop_front();
        }
        self.samples.push_back(sample);
        proof {
            let t = before.push(sample);
            if t.len() > MAX_SAMPLES {
                assert(self.samples@ =~= t.subrange(t.len() - MAX_SAMPLES, t.len() as int));
            }
        }
    }

    /// The last `n` samples (all of them when fewer are kept), oldest first.
    pub fn tail_n(&self, n: usize) -> (r: Vec<&T>)
        ensures
            r@.len() == if n < self.samples@.len() { n as int } else { self.samples@.len() as int },
            forall|i: int|
                0 <= i < r@.len() ==> *r@[i] == self.samples@[self.samples@.len() - r@.len() + i],
    {
        let len = self.samples.len();
        let skip = len.saturating_sub(n);
        let mut r: Vec<&T> = Vec::new();
        let mut i = skip;
        while i < len
            invariant
                skip <= i <= len,
                len == self.samples@.len(),
                skip == if n < len { len - n } else { 0 },
                r@.len() == i - skip,
                forall|j: int| 0 <= j < r@.len() ==> *r@[j] == self.samples@[skip + j],
            decreases len - i,
        {
            r.push(&self.samples[i]);
            i += 1;
        }
        r
    }
}

/// How much history the charts show.
#[derive(Clone, Copy, Debug, PartialEq, Eq, Structural)]
pub enum HistoryRange {
    OneMin,
    FiveMin,
    FifteenMin,
    OneHour,
}

pub open spec fn range_samples(r: HistoryRange) -> nat {
    match r {
        HistoryRange::OneMin => 60,
        HistoryRange::FiveMin => 300,
        HistoryRange::FifteenMin => 900,
        HistoryRange::OneHour => 3600,
    }
}

pub open spec fn range_label(r: HistoryRange) -> Seq<char> {
    match r {
        HistoryRange::OneMin => "1 min"@,
        HistoryRange::FiveMin => "5 min"@,
        HistoryRange::FifteenMin => "15 min"@,
        HistoryRange::OneHour => "1 hora"@,
    }
}

pub open spec fn range_next(r: HistoryRange) -> HistoryRange {
    match r {
        HistoryRange::OneMin => HistoryRange::FiveMin,
        HistoryRange::FiveMin => HistoryRange::FifteenMin,
        HistoryRange::FifteenMin => HistoryRange::OneHour,
        HistoryRange::OneHour => HistoryRange::OneMin,
    }
}

impl HistoryRange {
    /// Number of one-second samples the range covers.
    pub fn samples(self) -> (n: usize)
        ensures
            n == range_samples(self),
    {
        match self {
            HistoryRange::OneMin => 60,
            HistoryRange::FiveMin => 300,
            HistoryRange::FifteenMin => 900,
            HistoryRange::OneHour => 3600,
        }
    }

    /// The range's name as shown in the chart title.
    pub fn label(self) -> (s: &'static str)
        ensures
            s@ == range_label(self),
    {
        match self {
            HistoryRange::OneMin => "1 min",
            HistoryRange::FiveMin => "5 min",
            HistoryRange::FifteenMin => "15 min",
            HistoryRange::OneHour => "1 hora",
        }
    }

    /// The next longer range, wrapping from one hour back to one minute.
    pub fn next(self) -> (r: Self)
        ensures
            r == range_next(self),
    {
        match self {
            HistoryRange::OneMin => HistoryRange::FiveMin,
            HistoryRange::FiveMin => HistoryRange::FifteenMin,
            HistoryRange::FifteenMin => HistoryRange::OneHour,
            HistoryRange::OneHour => HistoryRange::OneMin,
        }
    }
}

/// Cycling through the ranges visits all four and comes back: four steps of
/// `next` return to the start, each step but the wrap makes the range
/// longer, and no range asks for more samples than a history keeps.
pub proof fn law_history_range_cycle(r: HistoryRange)
    ensures
        range_next(range_next(range_next(range_next(r)))) == r,
        r != HistoryRange::OneHour ==> range_samples(range_next(r)) > range_samples(r),
        range_samples(r) <= MAX_SAMPLES,
        range_samples(r) > 0,
{
}

/// A full history stays full and its newest sample is the one just pushed;
/// a history that is not full only grows by that one sample.
pub proof fn law_bounded_push<T>(s: Seq<T>, x: T)
    requires
        s.len() <= MAX_SAMPLES,
    ensures
        bounded_push(s, x, MAX_SAMPLES as nat).len() <= MAX_SAMPLES,
        bounded_push(s, x, MAX_SAMPLES as nat).last() == x,
        s.len() < MAX_SAMPLES ==> bounded_push(s, x, MAX_SAMPLES as nat) == s.push(x),
        s.len() == MAX_SAMPLES ==> bounded_push(s, x, MAX_SAMPLES as nat).len() == MAX_SAMPLES
            && bounded_push(s, x, MAX_SAMPLES as nat) == s.drop_first().push(x),
{
    let t = s.push(x);
    if s.len() == MAX_SAMPLES {
        assert(t.subrange(t.len() - MAX_SAMPLES, t.len() as int) =~= s.drop_first().push(x));
    }
}

/// Appends `v` to a history that keeps at most `cap` samples, dropping the
/// oldest one when it is full.
pub fn push_capped(dq: &mut VecDeque<u64>, v: u64, cap: usize)
    requires
        cap > 0,
        old(dq)@.len() <= cap,
    ensures
        final(dq)@ == bounded_push(old(dq)@, v, cap as nat),
        final(dq)@.len() <= cap,
{
    let ghost before = dq@;
    if dq.len() >= cap {
        dq.pop_front();
    }
    dq.push_back(v);
    proof {
        let t = before.push(v);
        if t.len() > cap {
            assert(dq@ =~= t.subrange(t.len() - cap, t.len() as int));
        }
    }
}

} // verus!
