//! Persisted preferences: the tab shown at start, the process ordering, and
//! the refresh intervals the user can step through.
use vstd::prelude::*;

verus! {

/// Number of refresh intervals offered.
pub const N_INTERVALS: usize = 7;

/// Index of the interval used when none is configured (two seconds).
pub const DEFAULT_INTERVAL_IDX: usize = 2;

/// The refresh interval at index `idx`, in milliseconds: half a second,
/// then 1, 2, 5, 10, 30 and 60 seconds.
pub open spec fn interval_ms(idx: int) -> nat {
    if idx == 0 {
        500
    } else if idx == 1 {
        1000
    } else if idx == 2 {
        2000
    } else if idx == 3 {
        5000
    } else if idx == 4 {
        10000
    } else if idx == 5 {
        30000
    } else {
        60000
    }
}

/// How an interval is shown: one decimal below a second, whole seconds
/// otherwise.
pub open spec fn interval_text(idx: int) -> Seq<char> {
    if idx == 0 {
        "0.5s"@
    } else if idx == 1 {
        "1s"@
    } else if idx == 2 {
        "2s"@
    } else if idx == 3 {
        "5s"@
    } else if idx == 4 {
        "10s"@
    } else if idx == 5 {
        "30s"@
    } else {
        "60s"@
    }
}

/// The refresh interval at `idx`, in milliseconds.
pub fn interval_millis(idx: usize) -> (ms: u64)
    requires
        idx < N_INTERVALS,
    ensures
        ms == interval_ms(idx as int),
{
    if idx == 0 {
        500
    } else if idx == 1 {
        1000
    } else if idx == 2 {
        2000
    } else if idx == 3 {
        5000
    } else if idx == 4 {
        10000
    } else if idx == 5 {
        30000
    } else {
        60000
    }
}

/// The label of the interval at `idx`, as shown in the header.
pub fn interval_label(idx: usize) -> (s: String)
    requires
        idx < N_INTERVALS,
    ensures
        s@ == interval_text(idx as int),
{
    let t: &str = if idx == 0 {
        "0.5s"
    } else if idx == 1 {
        "1s"
    } else if idx == 2 {
        "2s"
    } else if idx == 3 {
        "5s"
    } else if idx == 4 {
        "10s"
    } else if idx == 5 {
        "30s"
    } else {
        "60s"
    };
    t.to_owned()
}

/// The index of the interval of `ms` milliseconds, if it is one of those
/// offered.
pub fn interval_index_of(ms: u64) -> (r: Option<usize>)
    ensures
        r matches Some(i) ==> i < N_INTERVALS && interval_ms(i as int) == ms,
        r is None ==> forall|i: int| 0 <= i < N_INTERVALS ==> interval_ms(i) != ms,
{
    let mut i: usize = 0;
    while i < N_INTERVALS
        invariant
            i <= N_INTERVALS,
            forall|j: int| 0 <= j < i ==> interval_ms(j) != ms,
        decreases N_INTERVALS - i,
    {
        if interval_millis(i) == ms {
            return Some(i);
        }
        i += 1;
    }
    None
}

/// The interval index after stepping `delta` places from `idx`, stopping at
/// the shortest and the longest interval.
pub open spec fn stepped_interval(idx: int, delta: int) -> int {
    let n = idx + delta;
    if n < 0 {
        0
    } else if n > N_INTERVALS - 1 {
        N_INTERVALS - 1
    } else {
        n
    }
}

/// Steps the refresh interval; `Some` with the new index when it changed,
/// `None` when it was already at the end it moved towards.
pub fn step_interval(idx: usize, delta: i32) -> (r: Option<usize>)
    requires
        idx < N_INTERVALS,
    ensures
        r is Some <==> stepped_interval(idx as int, delta as int) != idx,
        r matches Some(n) ==> n == stepped_interval(idx as int, delta as int),
{
    let n: i64 = idx as i64 + delta as i64;
    let new_idx: usize = if n < 0 {
        0
    } else if n > (N_INTERVALS - 1) as i64 {
        N_INTERVALS - 1
    } else {
        n as usize
    };
    if new_idx != idx {
        Some(new_idx)
    } else {
        None
    }
}

/// Intervals grow strictly with their index, so stepping up lengthens the
/// refresh and stepping down shortens it; a step always lands on an offered
/// interval, and a step up then down returns unless it hit the end.
pub proof fn law_interval_steps(idx: int, delta: int)
    requires
        0 <= idx < N_INTERVALS,
    ensures
        0 <= stepped_interval(idx, delta) < N_INTERVALS,
        forall|i: int, j: int| 0 <= i < j < N_INTERVALS ==> interval_ms(i) < interval_ms(j),
        idx + 1 < N_INTERVALS ==> stepped_interval(stepped_interval(idx, 1), -1) == idx,
        idx > 0 ==> stepped_interval(stepped_interval(idx, -1), 1) == idx,
        DEFAULT_INTERVAL_IDX < N_INTERVALS && interval_ms(DEFAULT_INTERVAL_IDX as int) == 2000,
{
}

/// The tab shown in the lower half of the main view.
#[derive(Clone, Copy, Debug, Default, PartialEq, Eq, Structural)]
pub enum Tab {
    #[default]
    Processes,
    Containers,
    Network,
}

/// Column the process table is ordered by when the program starts.
#[derive(Clone, Copy, Debug, Default, PartialEq, Eq, Structural)]
pub enum SortColumn {
    #[default]
    Cpu,
    Memory,
    Pid,
    Name,
}

} // verus!
