//! State of the process table: text and status filters, ordering, cursor
//! and scroll position.
use vstd::prelude::*;
use crate::localization::Language;
use crate::models::process::{ProcessSortColumn, ProcessStatus};
use crate::order::{
    is_stable_order, keys_of, lemma_lex_irreflexive, lemma_lex_trichotomy, lemma_stable_order_members, lex_lt,
    listed_before, stable_order, SortKey,
};
use crate::text::{append_chars, chars_of, contains, contains_chars, lowercase, string_from_chars, to_lowercase};

verus! {

/// Which process states the table shows.
#[derive(Clone, Copy, Debug, Default, PartialEq, Eq, Structural)]
pub enum ProcessStatusFilter {
    #[default]
    All,
    Running,
    Sleeping,
}

pub open spec fn status_filter_label(f: ProcessStatusFilter, lang: Language) -> Seq<char> {
    match lang {
        Language::Spanish => match f {
            ProcessStatusFilter::Running => "ejecutando"@,
            ProcessStatusFilter::Sleeping => "durmiendo"@,
            ProcessStatusFilter::All => "todos"@,
        },
        Language::English => match f {
            ProcessStatusFilter::Running => "running"@,
            ProcessStatusFilter::Sleeping => "sleeping"@,
            ProcessStatusFilter::All => "all"@,
        },
    }
}

pub open spec fn status_filter_next(f: ProcessStatusFilter) -> ProcessStatusFilter {
    match f {
        ProcessStatusFilter::Running => ProcessStatusFilter::Sleeping,
        ProcessStatusFilter::Sleeping => ProcessStatusFilter::All,
        ProcessStatusFilter::All => ProcessStatusFilter::Running,
    }
}

pub open spec fn status_filter_matches(f: ProcessStatusFilter, s: ProcessStatus) -> bool {
    match f {
        ProcessStatusFilter::All => true,
        ProcessStatusFilter::Running => s == ProcessStatus::Running,
        ProcessStatusFilter::Sleeping => s == ProcessStatus::Sleeping,
    }
}

impl ProcessStatusFilter {
    /// The filter's name in the given language.
    pub fn label(self, lang: Language) -> (s: &'static str)
        ensures
            s@ == status_filter_label(self, lang),
    {
        match lang {
            Language::Spanish => match self {
                ProcessStatusFilter::Running => "ejecutando",
                ProcessStatusFilter::Sleeping => "durmiendo",
                ProcessStatusFilter::All => "todos",
            },
            Language::English => match self {
                ProcessStatusFilter::Running => "running",
                ProcessStatusFilter::Sleeping => "sleeping",
                ProcessStatusFilter::All => "all",
            },
        }
    }

    /// The next filter: running, then sleeping, then all, then running again.
    pub fn next(self) -> (r: Self)
        ensures
            r == status_filter_next(self),
    {
        match self {
            ProcessStatusFilter::Running => ProcessStatusFilter::Sleeping,
            ProcessStatusFilter::Sleeping => ProcessStatusFilter::All,
            ProcessStatusFilter::All => ProcessStatusFilter::Running,
        }
    }

    /// Whether a process in state `status` passes the filter.
    pub fn matches(self, status: ProcessStatus) -> (b: bool)
        ensures
            b == status_filter_matches(self, status),
    {
        match self {
            ProcessStatusFilter::All => true,
            ProcessStatusFilter::Running => status == ProcessStatus::Running,
            ProcessStatusFilter::Sleeping => status == ProcessStatus::Sleeping,
        }
    }
}

/// Pressing the status-filter key three times comes back to the same
/// filter, the "all" filter lets every process through, and the other two
/// let through exactly the state they name.
pub proof fn law_status_filter(f: ProcessStatusFilter, s: ProcessStatus)
    ensures
        status_filter_next(status_filter_next(status_filter_next(f))) == f,
        status_filter_matches(ProcessStatusFilter::All, s),
        status_filter_matches(ProcessStatusFilter::Running, s) <==> s == ProcessStatus::Running,
        status_filter_matches(ProcessStatusFilter::Sleeping, s) <==> s == ProcessStatus::Sleeping,
{
}

/// Rows kept on screen below the cursor when the table scrolls to follow it.
pub const VISIBLE_ROWS_ESTIMATE: usize = 20;

/// Filter text, ordering, cursor and scroll of the process table.
pub struct ProcessTableState {
    pub filter: String,
    pub filter_active: bool,
    pub sort_col: ProcessSortColumn,
    pub sort_asc: bool,
    pub cursor: usize,
    pub scroll: usize,
    pub status_filter: ProcessStatusFilter,
}

impl Default for ProcessTableState {
    /// No filter, ordered by CPU from highest, cursor on the first row.
    fn default() -> (s: Self)
        ensures
            s.filter@ == Seq::<char>::empty(),
            !s.filter_active,
            s.sort_col == ProcessSortColumn::Cpu,
            !s.sort_asc,
            s.cursor == 0,
            s.scroll == 0,
            s.status_filter == ProcessStatusFilter::All,
    {
        ProcessTableState {
            filter: String::new(),
            filter_active: false,
            sort_col: ProcessSortColumn::Cpu,
            sort_asc: false,
            cursor: 0,
            scroll: 0,
            status_filter: ProcessStatusFilter::All,
        }
    }
}

/// The cursor after moving it by `delta` rows within `count` rows: it stays
/// on a row of the table.
pub open spec fn moved_cursor(cursor: int, delta: int, count: int) -> int {
    let c = cursor + delta;
    if c < 0 {
        0
    } else if c > count - 1 {
        count - 1
    } else {
        c
    }
}

/// The scroll offset that keeps `cursor` inside a window of `visible` rows
/// starting at `scroll`, moving the window as little as needed.
pub open spec fn follow_scroll(cursor: int, scroll: int, visible: int) -> int {
    if cursor < scroll {
        cursor
    } else if cursor >= scroll + visible {
        cursor - (visible - 1)
    } else {
        scroll
    }
}

/// Whether a change of sort column keeps or flips the direction: choosing
/// the column already in use flips it, choosing another starts descending.
pub open spec fn toggled_sort<C>(cur: C, asc: bool, col: C) -> (C, bool) {
    if cur == col { (cur, !asc) } else { (col, false) }
}

impl ProcessTableState {
    /// Moves the cursor by `delta` rows within the `count` rows that pass the
    /// filter, scrolling so that the cursor stays on screen; nothing moves
    /// when no row passes.
    pub fn move_cursor(&mut self, delta: i32, count: usize)
        requires
            count <= i32::MAX,
            old(self).cursor <= i32::MAX,
            i32::MIN <= old(self).cursor + delta <= i32::MAX,
            old(self).scroll + VISIBLE_ROWS_ESTIMATE <= usize::MAX,
        ensures
            count == 0 ==> final(self).cursor == old(self).cursor && final(self).scroll == old(self).scroll,
            count > 0 ==> final(self).cursor == moved_cursor(old(self).cursor as int, delta as int, count as int),
            count > 0 ==> final(self).scroll == follow_scroll(
                final(self).cursor as int,
                old(self).scroll as int,
                VISIBLE_ROWS_ESTIMATE as int,
            ),
            final(self).filter == old(self).filter,
            final(self).filter_active == old(self).filter_active,
            final(self).sort_col == old(self).sort_col,
            final(self).sort_asc == old(self).sort_asc,
            final(self).status_filter == old(self).status_filter,
    {
        if count == 0 {
            return;
        }
        let c: i32 = self.cursor as i32 + delta;
        let last: i32 = count as i32 - 1;
        let new_cursor: usize = if c < 0 {
            0
        } else if c > last {
            last as usize
        } else {
            c as usize
        };
        self.cursor = new_cursor;
        let visible = VISIBLE_ROWS_ESTIMATE;
        if new_cursor < self.scroll {
            self.scroll = new_cursor;
        } else if new_cursor >= self.scroll + visible {
            self.scroll = new_cursor - (visible - 1);
        }
    }

    /// Orders the table by `col`: the column in use flips direction, another
    /// column starts descending; the cursor and scroll go back to the top.
    pub fn sort_by(&mut self, col: ProcessSortColumn)
        ensures
            (final(self).sort_col, final(self).sort_asc) == toggled_sort(
                old(self).sort_col,
                old(self).sort_asc,
                col,
            ),
            final(self).cursor == 0,
            final(self).scroll == 0,
            final(self).filter == old(self).filter,
            final(self).filter_active == old(self).filter_active,
            final(self).status_filter == old(self).status_filter,
    {
        if self.sort_col == col {
            self.sort_asc = !self.sort_asc;
        } else {
            self.sort_col = col;
            self.sort_asc = false;
        }
        self.cursor = 0;
        self.scroll = 0;
    }
}

/// Sorting twice by the same column gives back the direction it started with.
pub proof fn law_sort_toggle_twice<C>(cur: C, asc: bool, col: C)
    ensures
        ({
            let (c1, a1) = toggled_sort(cur, asc, col);
            let (c2, a2) = toggled_sort(c1, a1, col);
            &&& c2 == col
            &&& (cur == col ==> a2 == asc)
            &&& (cur != col ==> a2 == true)
        }),
{
}

/// After a move the cursor is on a row and the window shows it.
pub proof fn law_cursor_on_screen(cursor: int, delta: int, count: int, scroll: int, visible: int)
    requires
        count > 0,
        visible > 0,
        scroll >= 0,
    ensures
        ({
            let c = moved_cursor(cursor, delta, count);
            let s = follow_scroll(c, scroll, visible);
            &&& 0 <= c < count
            &&& 0 <= s <= c < s + visible
        }),
{
}

/// How many names pass the text filter: all of them when the filter is
/// empty, else those whose lowercase form contains the lowercase filter.
pub open spec fn count_passing(names: Seq<Seq<char>>, filter: Seq<char>) -> nat
    decreases names.len(),
{
    if names.len() == 0 {
        0
    } else {
        count_passing(names.drop_last(), filter) + if contains(
            lowercase(names.last()),
            lowercase(filter),
        ) {
            1nat
        } else {
            0nat
        }
    }
}

pub open spec fn string_views(v: Seq<String>) -> Seq<Seq<char>> {
    v.map_values(|s: String| s@)
}

/// Number of processes whose name passes the text filter.
pub fn filtered_process_count(names: &Vec<String>, filter: &str) -> (n: usize)
    ensures
        n == if filter@.len() == 0 {
            names@.len()
        } else {
            count_passing(string_views(names@), filter@)
        },
{
    if filter.unicode_len() == 0 {
        return names.len();
    }
    let f_low = to_lowercase(filter);
    let f_chars = chars_of(f_low.as_str());
    let mut n: usize = 0;
    let mut i: usize = 0;
    while i < names.len()
        invariant
            i <= names@.len(),
            n <= i,
            f_chars@ == lowercase(filter@),
            n == count_passing(string_views(names@.take(i as int)), filter@),
        decreases names.len() - i,
    {
        let low = to_lowercase(names[i].as_str());
        let low_chars = chars_of(low.as_str());
        proof {
            let t = names@.take(i as int + 1);
            assert(string_views(t).drop_last() =~= string_views(names@.take(i as int)));
            assert(string_views(t).last() == names@[i as int]@);
        }
        if contains_chars(low_chars.as_slice(), f_chars.as_slice()) {
            n += 1;
        }
        i += 1;
    }
    assert(names@.take(names@.len() as int) =~= names@);
    n
}

/// Whether a name passes the text filter.
pub open spec fn name_passes(name: Seq<char>, filter: Seq<char>) -> bool {
    filter.len() == 0 || contains(lowercase(name), lowercase(filter))
}

/// The positions, in order, of the first `n` names that pass the filter.
pub open spec fn passing_positions(names: Seq<Seq<char>>, filter: Seq<char>, n: int) -> Seq<usize>
    decreases n,
{
    if n <= 0 {
        Seq::empty()
    } else if name_passes(names[n - 1], filter) {
        passing_positions(names, filter, n - 1).push((n - 1) as usize)
    } else {
        passing_positions(names, filter, n - 1)
    }
}

/// The positions of the processes whose name passes the text filter, in
/// the order the processes are listed.
pub fn passing_indices(names: &Vec<String>, filter: &str) -> (r: Vec<usize>)
    ensures
        r@ == passing_positions(string_views(names@), filter@, names@.len() as int),
{
    let empty = filter.unicode_len() == 0;
    let f_low = to_lowercase(filter);
    let f_chars = chars_of(f_low.as_str());
    let mut r: Vec<usize> = Vec::new();
    let mut i: usize = 0;
    while i < names.len()
        invariant
            i <= names@.len(),
            empty == (filter@.len() == 0),
            f_chars@ == lowercase(filter@),
            r@ == passing_positions(string_views(names@), filter@, i as int),
        decreases names.len() - i,
    {
        assert(string_views(names@)[i as int] == names@[i as int]@);
        let pass = if empty {
            true
        } else {
            let low = to_lowercase(names[i].as_str());
            let low_chars = chars_of(low.as_str());
            contains_chars(low_chars.as_slice(), f_chars.as_slice())
        };
        if pass {
            r.push(i);
        }
        i += 1;
    }
    r
}

/// The count shown above the process table and the rows the table lists
/// agree: as many positions pass the filter as the count says, each of
/// them a valid row, in increasing order.
pub proof fn law_filter_count_matches_rows(names: Seq<Seq<char>>, filter: Seq<char>, n: int)
    requires
        0 <= n <= names.len(),
        names.len() <= usize::MAX,
        filter.len() > 0,
    ensures
        passing_positions(names, filter, n).len() == count_passing(names.take(n), filter),
        forall|k: int|
            0 <= k < passing_positions(names, filter, n).len() ==> #[trigger] passing_positions(names, filter, n)[k] < n,
        forall|j: int, k: int|
            0 <= j < k < passing_positions(names, filter, n).len() ==> #[trigger] passing_positions(names, filter, n)[j]
                < #[trigger] passing_positions(names, filter, n)[k],
    decreases n,
{
    if n > 0 {
        law_filter_count_matches_rows(names, filter, n - 1);
        assert(names.take(n).drop_last() =~= names.take(n - 1));
        assert(names.take(n).last() == names[n - 1]);
        let prev = passing_positions(names, filter, n - 1);
        let cur = passing_positions(names, filter, n);
        assert forall|j: int, k: int| 0 <= j < k < cur.len() implies #[trigger] cur[j] < #[trigger] cur[k] by {
            if name_passes(names[n - 1], filter) {
                assert(cur == prev.push((n - 1) as usize));
            } else {
                assert(cur == prev);
            }
            if k < prev.len() {
                assert(cur[j] == prev[j] && cur[k] == prev[k]);
            } else {
                assert(cur[j] == prev[j]);
                assert(prev[j] < n - 1);
            }
        }
    }
}

pub open spec fn col_header_text(label: Seq<char>, active: bool, asc: bool) -> Seq<char> {
    if active {
        label + " "@ + if asc { "▲"@ } else { "▼"@ }
    } else {
        label
    }
}

/// A column title, followed by an arrow showing the direction when the
/// table is ordered by that column.
pub fn col_header(label: &str, active: bool, asc: bool) -> (r: String)
    ensures
        r@ == col_header_text(label@, active, asc),
{
    let mut v = chars_of(label);
    if active {
        v.push(' ');
        v.push(if asc { '▲' } else { '▼' });
        proof {
            reveal_strlit(" ");
            reveal_strlit("▲");
            reveal_strlit("▼");
            assert(v@ =~= col_header_text(label@, active, asc));
        }
    }
    string_from_chars(v.as_slice())
}


/// What the process table needs of a process to filter and order it. CPU
/// share and rates are given as whole numbers that order the same way as the
/// measured values; a missing rate orders as zero.
pub struct ProcessRow {
    pub name: String,
    pub status: ProcessStatus,
    pub cpu: u64,
    pub memory: u64,
    pub disk_read: Option<u64>,
    pub disk_write: Option<u64>,
    pub net_rx: Option<u64>,
    pub net_tx: Option<u64>,
}

pub open spec fn or_zero(x: Option<u64>) -> u64 {
    match x {
        Some(v) => v,
        None => 0,
    }
}

/// The key a process is ordered by in column `col`: a measurement, or the
/// lowercase name.
pub open spec fn process_key(r: ProcessRow, col: ProcessSortColumn) -> (Seq<char>, u64) {
    match col {
        ProcessSortColumn::Cpu => (Seq::empty(), r.cpu),
        ProcessSortColumn::Memory => (Seq::empty(), r.memory),
        ProcessSortColumn::DiskRead => (Seq::empty(), or_zero(r.disk_read)),
        ProcessSortColumn::DiskWrite => (Seq::empty(), or_zero(r.disk_write)),
        ProcessSortColumn::NetRx => (Seq::empty(), or_zero(r.net_rx)),
        ProcessSortColumn::NetTx => (Seq::empty(), or_zero(r.net_tx)),
        ProcessSortColumn::Name => (lowercase(r.name@), 0),
    }
}

pub open spec fn process_keys(rows: Seq<ProcessRow>, col: ProcessSortColumn) -> Seq<(Seq<char>, u64)> {
    rows.map_values(|r: ProcessRow| process_key(r, col))
}

/// A process is listed when its name passes the text filter and its state
/// passes the status filter.
pub open spec fn row_shown(r: ProcessRow, t: ProcessTableState) -> bool {
    name_passes(r.name@, t.filter@) && status_filter_matches(t.status_filter, r.status)
}

pub open spec fn rows_shown(rows: Seq<ProcessRow>, t: ProcessTableState) -> Seq<bool> {
    rows.map_values(|r: ProcessRow| row_shown(r, t))
}

impl ProcessTableState {
    /// The positions of the processes the table lists, top row first: those
    /// passing both filters, ordered by the chosen column in the chosen
    /// direction, equal values in the order the processes are given.
    pub fn visible_rows(&self, rows: &Vec<ProcessRow>) -> (order: Vec<usize>)
        ensures
            is_stable_order(process_keys(rows@, self.sort_col), self.sort_asc, rows_shown(rows@, *self), order@),
    {
        let empty = self.filter.as_str().unicode_len() == 0;
        let f_low = to_lowercase(self.filter.as_str());
        let f_chars = chars_of(f_low.as_str());
        let mut keys: Vec<SortKey> = Vec::new();
        let mut keep: Vec<bool> = Vec::new();
        let mut i: usize = 0;
        while i < rows.len()
            invariant
                i <= rows@.len(),
                keys@.len() == i,
                keep@.len() == i,
                empty == (self.filter@.len() == 0),
                f_chars@ == lowercase(self.filter@),
                forall|k: int| 0 <= k < i ==> #[trigger] keys_of(keys@)[k] == process_key(rows@[k], self.sort_col),
                forall|k: int| 0 <= k < i ==> #[trigger] keep@[k] == row_shown(rows@[k], *self),
            decreases rows.len() - i,
        {
            let r = &rows[i];
            let key = match self.sort_col {
                ProcessSortColumn::Cpu => SortKey { text: Vec::new(), number: r.cpu },
                ProcessSortColumn::Memory => SortKey { text: Vec::new(), number: r.memory },
                ProcessSortColumn::DiskRead => SortKey { text: Vec::new(), number: r.disk_read.unwrap_or(0) },
                ProcessSortColumn::DiskWrite => SortKey { text: Vec::new(), number: r.disk_write.unwrap_or(0) },
                ProcessSortColumn::NetRx => SortKey { text: Vec::new(), number: r.net_rx.unwrap_or(0) },
                ProcessSortColumn::NetTx => SortKey { text: Vec::new(), number: r.net_tx.unwrap_or(0) },
                ProcessSortColumn::Name => {
                    let low = to_lowercase(r.name.as_str());
                    SortKey { text: chars_of(low.as_str()), number: 0 }
                },
            };
            let name_ok = if empty {
                true
            } else {
                let low = to_lowercase(r.name.as_str());
                let low_chars = chars_of(low.as_str());
                contains_chars(low_chars.as_slice(), f_chars.as_slice())
            };
            let shown = name_ok && self.status_filter.matches(r.status);
            proof {
                assert(key.text@ =~= process_key(rows@[i as int], self.sort_col).0);
            }
            let ghost old_keys = keys@;
            proof {
                assert(key.number == process_key(rows@[i as int], self.sort_col).1);
            }
            keys.push(key);
            keep.push(shown);
            proof {
                assert forall|k: int| 0 <= k < i + 1 implies #[trigger] keys_of(keys@)[k] == process_key(rows@[k], self.sort_col) by {
                    assert(keys_of(keys@)[k] == crate::order::key_of(keys@[k]));
                    if k < i {
                        assert(keys@[k] == old_keys[k]);
                        assert(keys_of(old_keys)[k] == crate::order::key_of(old_keys[k]));
                    }
                }
            }
            i += 1;
        }
        assert(keys_of(keys@) =~= process_keys(rows@, self.sort_col));
        assert(keep@ =~= rows_shown(rows@, *self));
        stable_order(&keys, &keep, self.sort_asc)
    }
}


/// The positions among the first `n` names that pass the filter are the
/// passing positions below `n`, in increasing order; with an empty filter
/// they are all `n` positions.
proof fn lemma_passing_positions(names: Seq<Seq<char>>, filter: Seq<char>, n: int)
    requires
        0 <= n <= names.len(),
        names.len() <= usize::MAX,
    ensures
        forall|x: usize| #[trigger] passing_positions(names, filter, n).contains(x) <==> (x < n && name_passes(
            names[x as int],
            filter,
        )),
        passing_positions(names, filter, n).no_duplicates(),
        filter.len() == 0 ==> passing_positions(names, filter, n).len() == n,
    decreases n,
{
    if n > 0 {
        lemma_passing_positions(names, filter, n - 1);
        let prev = passing_positions(names, filter, n - 1);
        let cur = passing_positions(names, filter, n);
        let last = (n - 1) as usize;
        if name_passes(names[n - 1], filter) {
            assert(cur == prev.push(last));
            assert(!prev.contains(last));
            assert forall|x: usize| #[trigger] cur.contains(x) <==> (x < n && name_passes(names[x as int], filter)) by {
                if x == last {
                    assert(cur[prev.len() as int] == x);
                } else {
                    if cur.contains(x) {
                        let a = choose|a: int| 0 <= a < cur.len() && cur[a] == x;
                        assert(a < prev.len());
                        assert(prev[a] == x);
                        assert(prev.contains(x));
                    }
                    if prev.contains(x) {
                        let a = choose|a: int| 0 <= a < prev.len() && prev[a] == x;
                        assert(cur[a] == x);
                    }
                    assert(prev.contains(x) <==> (x < n - 1 && name_passes(names[x as int], filter)));
                }
            }
            assert forall|a: int, b: int| 0 <= a < cur.len() && 0 <= b < cur.len() && a != b implies cur[a]
                != cur[b] by {
                if a < prev.len() && b < prev.len() {
                    assert(cur[a] == prev[a] && cur[b] == prev[b]);
                } else if a < prev.len() {
                    assert(cur[a] == prev[a] && prev.contains(prev[a]));
                } else {
                    assert(cur[b] == prev[b] && prev.contains(prev[b]));
                }
            }
        } else {
            assert(cur == prev);
        }
    }
}

pub open spec fn row_names(rows: Seq<ProcessRow>) -> Seq<Seq<char>> {
    rows.map_values(|r: ProcessRow| r.name@)
}

/// With every process state shown, the table lists exactly as many rows as
/// `filtered_process_count` counts for the same names and filter, the count
/// the cursor moves within: every listed row can be reached and the cursor
/// never points past the last one.
pub proof fn law_listed_rows_match_count(rows: Seq<ProcessRow>, names: Seq<String>, t: ProcessTableState, order: Seq<usize>)
    requires
        t.status_filter == ProcessStatusFilter::All,
        rows.len() <= usize::MAX,
        names.len() == rows.len(),
        forall|i: int| 0 <= i < rows.len() ==> #[trigger] names[i]@ == rows[i].name@,
        is_stable_order(process_keys(rows, t.sort_col), t.sort_asc, rows_shown(rows, t), order),
    ensures
        order.len() == if t.filter@.len() == 0 {
            names.len()
        } else {
            count_passing(string_views(names), t.filter@)
        },
{
    let keys = process_keys(rows, t.sort_col);
    let keep = rows_shown(rows, t);
    let nv = string_views(names);
    assert(nv =~= row_names(rows));
    lemma_stable_order_members(keys, t.sort_asc, keep, order);
    let n = rows.len() as int;
    lemma_passing_positions(nv, t.filter@, n);
    let pp = passing_positions(nv, t.filter@, n);
    assert forall|x: usize| #[trigger] order.contains(x) <==> pp.contains(x) by {
        if x < n {
            assert(keep[x as int] == row_shown(rows[x as int], t));
            assert(nv[x as int] == rows[x as int].name@);
        }
    }
    assert(order.to_set() =~= pp.to_set());
    order.unique_seq_to_set();
    pp.unique_seq_to_set();
    if t.filter@.len() > 0 {
        law_filter_count_matches_rows(nv, t.filter@, n);
        assert(nv.take(n) =~= nv);
    }
}

/// How the process table orders what it lists, column by column: by CPU, by
/// memory, by disk reads, disk writes, received or sent bytes (a missing
/// rate counting as 0), or by the lowercase name; larger values first when
/// descending, smaller first when ascending, and rows with equal values in
/// the order they were given. Every ordering the table may produce obeys
/// this.
pub proof fn law_process_order_by_column(t: ProcessTableState, rows: Seq<ProcessRow>, order: Seq<usize>)
    requires
        is_stable_order(process_keys(rows, t.sort_col), t.sort_asc, rows_shown(rows, t), order),
    ensures
        forall|a: int, b: int|
            0 <= a < b < order.len() ==> {
                let x = rows[#[trigger] order[a] as int];
                let y = rows[#[trigger] order[b] as int];
                &&& t.sort_col == ProcessSortColumn::Cpu ==> (if t.sort_asc {
                    x.cpu <= y.cpu
                } else {
                    x.cpu >= y.cpu
                }) && (x.cpu == y.cpu ==> order[a] < order[b])
                &&& t.sort_col == ProcessSortColumn::Memory ==> (if t.sort_asc {
                    x.memory <= y.memory
                } else {
                    x.memory >= y.memory
                }) && (x.memory == y.memory ==> order[a] < order[b])
                &&& t.sort_col == ProcessSortColumn::DiskRead ==> (if t.sort_asc {
                    or_zero(x.disk_read) <= or_zero(y.disk_read)
                } else {
                    or_zero(x.disk_read) >= or_zero(y.disk_read)
                })
                &&& t.sort_col == ProcessSortColumn::DiskWrite ==> (if t.sort_asc {
                    or_zero(x.disk_write) <= or_zero(y.disk_write)
                } else {
                    or_zero(x.disk_write) >= or_zero(y.disk_write)
                })
                &&& t.sort_col == ProcessSortColumn::NetRx ==> (if t.sort_asc {
                    or_zero(x.net_rx) <= or_zero(y.net_rx)
                } else {
                    or_zero(x.net_rx) >= or_zero(y.net_rx)
                })
                &&& t.sort_col == ProcessSortColumn::NetTx ==> (if t.sort_asc {
                    or_zero(x.net_tx) <= or_zero(y.net_tx)
                } else {
                    or_zero(x.net_tx) >= or_zero(y.net_tx)
                })
                &&& t.sort_col == ProcessSortColumn::Name ==> (if t.sort_asc {
                    !lex_lt(lowercase(y.name@), lowercase(x.name@))
                } else {
                    !lex_lt(lowercase(x.name@), lowercase(y.name@))
                })
            },
{
    let keys = process_keys(rows, t.sort_col);
    assert forall|a: int, b: int| 0 <= a < b < order.len() implies {
        let x = rows[#[trigger] order[a] as int];
        let y = rows[#[trigger] order[b] as int];
        &&& t.sort_col == ProcessSortColumn::Cpu ==> (if t.sort_asc {
            x.cpu <= y.cpu
        } else {
            x.cpu >= y.cpu
        }) && (x.cpu == y.cpu ==> order[a] < order[b])
        &&& t.sort_col == ProcessSortColumn::Memory ==> (if t.sort_asc {
            x.memory <= y.memory
        } else {
            x.memory >= y.memory
        }) && (x.memory == y.memory ==> order[a] < order[b])
        &&& t.sort_col == ProcessSortColumn::DiskRead ==> (if t.sort_asc {
            or_zero(x.disk_read) <= or_zero(y.disk_read)
        } else {
            or_zero(x.disk_read) >= or_zero(y.disk_read)
        })
        &&& t.sort_col == ProcessSortColumn::DiskWrite ==> (if t.sort_asc {
            or_zero(x.disk_write) <= or_zero(y.disk_write)
        } else {
            or_zero(x.disk_write) >= or_zero(y.disk_write)
        })
        &&& t.sort_col == ProcessSortColumn::NetRx ==> (if t.sort_asc {
            or_zero(x.net_rx) <= or_zero(y.net_rx)
        } else {
            or_zero(x.net_rx) >= or_zero(y.net_rx)
        })
        &&& t.sort_col == ProcessSortColumn::NetTx ==> (if t.sort_asc {
            or_zero(x.net_tx) <= or_zero(y.net_tx)
        } else {
            or_zero(x.net_tx) >= or_zero(y.net_tx)
        })
        &&& t.sort_col == ProcessSortColumn::Name ==> (if t.sort_asc {
            !lex_lt(lowercase(y.name@), lowercase(x.name@))
        } else {
            !lex_lt(lowercase(x.name@), lowercase(y.name@))
        })
    } by {
        let i = order[a] as int;
        let j = order[b] as int;
        assert(listed_before(keys, t.sort_asc, i, j));
        assert(i < rows.len() && j < rows.len());
        assert(keys[i] == process_key(rows[i], t.sort_col));
        assert(keys[j] == process_key(rows[j], t.sort_col));
        lemma_lex_irreflexive(Seq::<char>::empty());
        lemma_lex_trichotomy(lowercase(rows[i].name@), lowercase(rows[j].name@));
        lemma_lex_irreflexive(lowercase(rows[i].name@));
    }
}

} // verus!
