//! Navigation state of the terminal interface and what each key press does
//! to it. The event loop reads a key, asks `UiState::handle_key` for the new
//! state, and carries out the returned `UiAction` (quitting, saving the
//! configuration, talking to the container engine, re-sorting the table).
use vstd::prelude::*;
use vstd::view::View as _;
use crate::config::{stepped_interval, step_interval, Tab, N_INTERVALS};
use crate::localization::Language;
use crate::models::container::ContainerSortColumn;
use crate::models::process::ProcessSortColumn;
use crate::text::{chars_of, string_from_chars};
use crate::ui::views::container_detail::ConfirmAction;
use crate::ui::views::container_logs::{
    after_scroll_down, after_scroll_up, after_toggle_follow, LogsViewState,
};
use crate::order::{is_stable_order, law_stable_order_unique};
use crate::ui::widgets::container_table::{all_kept, container_keys, container_order, ContainerRow};
use crate::ui::widgets::process_table::{
    follow_scroll, moved_cursor, process_keys, rows_shown, toggled_sort, ProcessRow, ProcessTableState,
    VISIBLE_ROWS_ESTIMATE,
};

verus! {

/// The screen being shown.
#[derive(Clone, Copy, Debug, PartialEq, Eq, Structural)]
pub enum View {
    Main,
    ProcessDetail,
    ContainerDetail,
    ContainerLogs,
}

/// A key press. `ctrl` is set when Control is the only modifier held.
#[derive(Clone, Copy, Debug, PartialEq, Eq, Structural)]
pub enum Key {
    Char { c: char, ctrl: bool },
    F(u8),
    Esc,
    Enter,
    Tab,
    Up,
    Down,
    Backspace,
    Other,
}

/// Rows the log view and the tables assume are on screen when scrolling.
pub const LOG_VISIBLE_ROWS: usize = 20;

/// A network interface offered in the interface selector.
pub struct NicChoice {
    pub name: String,
    pub is_up: bool,
}

/// A container row: its id and its name.
pub struct ContainerRef {
    pub id: String,
    pub name: String,
}

/// What a key press may look at besides the navigation state: the lists
/// the selectors and tables currently show.
pub struct UiContext {
    /// Interfaces in the interface selector, after its "all" entry.
    pub nics: Vec<NicChoice>,
    /// Short device names in the disk selector.
    pub disk_entries: Vec<String>,
    /// Containers in the order the container table shows them.
    pub containers: Vec<ContainerRef>,
    /// Processes that pass the process table's text filter.
    pub filtered_process_count: usize,
}

impl UiContext {
    /// The counts fit the table's signed cursor arithmetic.
    pub open spec fn wf(&self) -> bool {
        &&& self.filtered_process_count <= i32::MAX
        &&& self.containers@.len() <= i32::MAX
    }
}

/// Everything the key handler changes.
pub struct UiState {
    pub view: View,
    pub tab: Tab,
    pub show_help: bool,
    pub show_nic_selector: bool,
    pub nic_cursor: usize,
    pub selected_nic: Option<String>,
    pub show_disk_selector: bool,
    pub disk_cursor: usize,
    pub selected_disk: Option<String>,
    pub process_table: ProcessTableState,
    pub container_cursor: usize,
    pub container_sort_col: ContainerSortColumn,
    pub container_sort_asc: bool,
    pub confirm_action: Option<ConfirmAction>,
    pub logs: Option<LogsViewState>,
    pub interval_idx: usize,
    pub lang: Language,
}

impl UiState {
    /// The cursors stay within signed 32-bit range, the process table's
    /// scroll never passes its cursor, and the interval index is valid.
    pub open spec fn wf(&self) -> bool {
        &&& self.process_table.cursor < i32::MAX
        &&& self.process_table.scroll <= self.process_table.cursor
        &&& self.container_cursor < i32::MAX
        &&& self.interval_idx < N_INTERVALS
    }
}

/// What the event loop must do after a key press.
pub enum UiAction {
    Nothing,
    Quit,
    /// Store the tab, the selected interface and the selected disk.
    SaveConfig,
    /// Switch to the refresh interval with this index and store it.
    SetInterval(usize),
    /// Carry out a confirmed container action.
    RunContainerAction(ConfirmAction),
    /// Fetch the recent log lines of the container with this id into the
    /// log view.
    FetchLogs(String),
    /// Order the container table again by its current column.
    ResortContainers,
}

/// What a key press means in the current state.
#[derive(Clone, Copy, Debug, PartialEq, Eq, Structural)]
pub enum Command {
    Quit,
    ToggleHelp,
    CloseHelp,
    CloseLogs,
    LogsToggleFollow,
    LogsUp,
    LogsDown,
    CancelConfirm,
    Confirm,
    CloseContainerDetail,
    OpenLogs,
    AskRestart,
    AskStop,
    CloseProcessDetail,
    SwitchTab,
    ToggleNicSelector,
    NicUp,
    NicDown,
    NicConfirm,
    CloseNicSelector,
    ToggleDiskSelector,
    DiskUp,
    DiskDown,
    DiskConfirm,
    CloseDiskSelector,
    IntervalDown,
    IntervalUp,
    FilterType(char),
    FilterBackspace,
    FilterDone,
    ClearFilter,
    OpenProcessDetail,
    OpenContainerDetail,
    StartFilter,
    SortProcesses(ProcessSortColumn),
    SortContainers(ContainerSortColumn),
    ProcessUp,
    ProcessDown,
    ContainerUp,
    ContainerDown,
    Ignore,
}

pub open spec fn is_char(k: Key, ch: char) -> bool {
    k matches Key::Char { c, .. } && c == ch
}

/// The key table, first matching rule first: global keys, then the log
/// view, the container and process detail views, the main view's tab key
/// and selectors, the interval keys, the filter line, and the tables.
pub open spec fn command_for(s: UiState, k: Key) -> Command {
    let main = s.view == View::Main;
    let procs = s.tab == Tab::Processes;
    let conts = s.tab == Tab::Containers;
    let fa = s.process_table.filter_active;
    let nic = s.show_nic_selector;
    let disk = s.show_disk_selector;
    if is_char(k, 'q') && main && !nic && !s.show_help {
        Command::Quit
    } else if k == (Key::Char { c: 'c', ctrl: true }) {
        Command::Quit
    } else if k == Key::F(1) {
        Command::ToggleHelp
    } else if k == Key::Esc && s.show_help {
        Command::CloseHelp
    } else if k == Key::Esc && s.view == View::ContainerLogs {
        Command::CloseLogs
    } else if is_char(k, 'f') && s.view == View::ContainerLogs {
        Command::LogsToggleFollow
    } else if k == Key::Up && s.view == View::ContainerLogs {
        Command::LogsUp
    } else if k == Key::Down && s.view == View::ContainerLogs {
        Command::LogsDown
    } else if k == Key::Esc && s.view == View::ContainerDetail && s.confirm_action is Some {
        Command::CancelConfirm
    } else if k == Key::Enter && s.view == View::ContainerDetail && s.confirm_action is Some {
        Command::Confirm
    } else if k == Key::Esc && s.view == View::ContainerDetail {
        Command::CloseContainerDetail
    } else if (is_char(k, 'l') || is_char(k, 'L')) && s.view == View::ContainerDetail {
        Command::OpenLogs
    } else if (is_char(k, 'r') || is_char(k, 'R')) && s.view == View::ContainerDetail {
        Command::AskRestart
    } else if (is_char(k, 's') || is_char(k, 'S')) && s.view == View::ContainerDetail {
        Command::AskStop
    } else if k == Key::Esc && s.view == View::ProcessDetail {
        Command::CloseProcessDetail
    } else if k == Key::Tab && main {
        Command::SwitchTab
    } else if k == Key::F(3) && main {
        Command::ToggleNicSelector
    } else if k == Key::Up && nic {
        Command::NicUp
    } else if k == Key::Down && nic {
        Command::NicDown
    } else if k == Key::Enter && nic {
        Command::NicConfirm
    } else if k == Key::Esc && nic {
        Command::CloseNicSelector
    } else if k == Key::F(2) && main {
        Command::ToggleDiskSelector
    } else if k == Key::Up && disk {
        Command::DiskUp
    } else if k == Key::Down && disk {
        Command::DiskDown
    } else if k == Key::Enter && disk {
        Command::DiskConfirm
    } else if k == Key::Esc && disk {
        Command::CloseDiskSelector
    } else if is_char(k, '[') && main && !nic && !disk && !fa {
        Command::IntervalDown
    } else if is_char(k, ']') && main && !nic && !disk && !fa {
        Command::IntervalUp
    } else if k is Char && fa && procs {
        Command::FilterType(k->c)
    } else if k == Key::Backspace && fa && procs {
        Command::FilterBackspace
    } else if (k == Key::Esc || k == Key::Enter) && fa && procs {
        Command::FilterDone
    } else if k == Key::Esc && s.process_table.filter@.len() != 0 && procs {
        Command::ClearFilter
    } else if k == Key::Enter && main && procs && !fa {
        Command::OpenProcessDetail
    } else if k == Key::Enter && main && conts {
        Command::OpenContainerDetail
    } else if is_char(k, '/') && main && procs && !nic && !disk {
        Command::StartFilter
    } else if is_char(k, 'c') && main && procs && !fa {
        Command::SortProcesses(ProcessSortColumn::Cpu)
    } else if is_char(k, 'm') && main && procs && !fa {
        Command::SortProcesses(ProcessSortColumn::Memory)
    } else if is_char(k, 'r') && main && procs && !fa {
        Command::SortProcesses(ProcessSortColumn::DiskRead)
    } else if is_char(k, 'w') && main && procs && !fa {
        Command::SortProcesses(ProcessSortColumn::DiskWrite)
    } else if is_char(k, 'c') && main && conts {
        Command::SortContainers(ContainerSortColumn::Cpu)
    } else if is_char(k, 'm') && main && conts {
        Command::SortContainers(ContainerSortColumn::Memory)
    } else if is_char(k, 'i') && main && conts {
        Command::SortContainers(ContainerSortColumn::NetRecv)
    } else if is_char(k, 'o') && main && conts {
        Command::SortContainers(ContainerSortColumn::NetSent)
    } else if is_char(k, 'r') && main && conts {
        Command::SortContainers(ContainerSortColumn::DiskRead)
    } else if is_char(k, 'w') && main && conts {
        Command::SortContainers(ContainerSortColumn::DiskWrite)
    } else if k == Key::Up && main && procs && !nic && !disk {
        Command::ProcessUp
    } else if k == Key::Down && main && procs && !nic && !disk {
        Command::ProcessDown
    } else if k == Key::Up && main && conts {
        Command::ContainerUp
    } else if k == Key::Down && main && conts {
        Command::ContainerDown
    } else {
        Command::Ignore
    }
}

/// Index of the first name equal to `x` at or after `i`, or -1.
pub open spec fn find_name_from(names: Seq<Seq<char>>, x: Seq<char>, i: int) -> int
    decreases names.len() - i,
{
    if i < 0 || i >= names.len() {
        -1
    } else if names[i] == x {
        i
    } else {
        find_name_from(names, x, i + 1)
    }
}

pub open spec fn nic_names(nics: Seq<NicChoice>) -> Seq<Seq<char>> {
    nics.map_values(|n: NicChoice| n.name@)
}

pub open spec fn string_seqs(v: Seq<String>) -> Seq<Seq<char>> {
    v.map_values(|s: String| s@)
}

/// Where the interface selector opens: on the "all" entry when no interface
/// is selected, else on the selected interface (entries after "all" are
/// numbered from 1), or on "all" when it is no longer listed.
pub open spec fn nic_selector_start(sel: Option<String>, nics: Seq<NicChoice>) -> int {
    match sel {
        None => 0,
        Some(name) => {
            let p = find_name_from(nic_names(nics), name@, 0);
            if p < 0 { 0 } else { p + 1 }
        },
    }
}

/// Where the disk selector opens: on the selected disk, or the first entry
/// when it is no longer listed; the cursor stays put when no disk is
/// selected.
pub open spec fn disk_selector_start(sel: Option<String>, entries: Seq<String>, cursor: int) -> int {
    match sel {
        None => cursor,
        Some(name) => {
            let p = find_name_from(string_seqs(entries), name@, 0);
            if p < 0 { 0 } else { p }
        },
    }
}

pub open spec fn next_tab(t: Tab) -> Tab {
    match t {
        Tab::Processes => Tab::Containers,
        Tab::Containers => Tab::Processes,
        Tab::Network => Tab::Processes,
    }
}

pub open spec fn logs_map(l: Option<LogsViewState>, f: spec_fn(LogsViewState) -> LogsViewState) -> Option<LogsViewState> {
    match l {
        Some(v) => Some(f(v)),
        None => None,
    }
}

/// The process table after its rows changed: cursor and scroll at the top.
pub open spec fn table_reset(t: ProcessTableState) -> ProcessTableState {
    ProcessTableState { cursor: 0, scroll: 0, ..t }
}

/// How command `cmd` takes state `s` to `n` and what it asks the event loop
/// to do.
pub open spec fn command_effect(s: UiState, ctx: UiContext, cmd: Command, n: UiState, a: UiAction) -> bool {
    match cmd {
        Command::Quit => n == s && a is Quit,
        Command::ToggleHelp => n == (UiState { show_help: !s.show_help, ..s }) && a is Nothing,
        Command::CloseHelp => n == (UiState { show_help: false, ..s }) && a is Nothing,
        Command::CloseLogs => n == (UiState { view: View::ContainerDetail, logs: None, ..s }) && a is Nothing,
        Command::LogsToggleFollow => n == (UiState {
            logs: logs_map(s.logs, |l: LogsViewState| after_toggle_follow(l)),
            ..s
        }) && a is Nothing,
        Command::LogsUp => n == (UiState { logs: logs_map(s.logs, |l: LogsViewState| after_scroll_up(l)), ..s })
            && a is Nothing,
        Command::LogsDown => n == (UiState {
            logs: logs_map(s.logs, |l: LogsViewState| after_scroll_down(l, LOG_VISIBLE_ROWS)),
            ..s
        }) && a is Nothing,
        Command::CancelConfirm => n == (UiState { confirm_action: None, ..s }) && a is Nothing,
        Command::Confirm => n == (UiState { confirm_action: None, ..s }) && match s.confirm_action {
            Some(act) => a matches UiAction::RunContainerAction(x) && x == act,
            None => a is Nothing,
        },
        Command::CloseContainerDetail => n == (UiState { view: View::Main, ..s }) && a is Nothing,
        Command::OpenLogs => if s.container_cursor < ctx.containers@.len() {
            let c = ctx.containers@[s.container_cursor as int];
            &&& n == (UiState { view: View::ContainerLogs, logs: n.logs, ..s })
            &&& n.logs matches Some(l) && l.container_id == c.id && l.container_name == c.name
                && l.lines@.len() == 0 && l.scroll == 0 && !l.follow && l.lang == s.lang
            &&& a matches UiAction::FetchLogs(id) && id == c.id
        } else {
            n == s && a is Nothing
        },
        Command::AskRestart => if s.container_cursor < ctx.containers@.len() {
            n == (UiState {
                confirm_action: Some(ConfirmAction::Restart(ctx.containers@[s.container_cursor as int].id)),
                ..s
            }) && a is Nothing
        } else {
            n == s && a is Nothing
        },
        Command::AskStop => if s.container_cursor < ctx.containers@.len() {
            n == (UiState {
                confirm_action: Some(ConfirmAction::Stop(ctx.containers@[s.container_cursor as int].id)),
                ..s
            }) && a is Nothing
        } else {
            n == s && a is Nothing
        },
        Command::CloseProcessDetail => n == (UiState { view: View::Main, ..s }) && a is Nothing,
        Command::SwitchTab => n == (UiState { tab: next_tab(s.tab), ..s }) && a is SaveConfig,
        Command::ToggleNicSelector => a is Nothing && if s.show_nic_selector {
            n == (UiState { show_nic_selector: false, ..s })
        } else {
            n == (UiState {
                show_nic_selector: true,
                nic_cursor: nic_selector_start(s.selected_nic, ctx.nics@) as usize,
                ..s
            })
        },
        Command::NicUp => n == (UiState {
            nic_cursor: if s.nic_cursor > 0 { (s.nic_cursor - 1) as usize } else { s.nic_cursor },
            ..s
        }) && a is Nothing,
        Command::NicDown => n == (UiState {
            nic_cursor: if s.nic_cursor < ctx.nics@.len() { (s.nic_cursor + 1) as usize } else { s.nic_cursor },
            ..s
        }) && a is Nothing,
        Command::NicConfirm => if s.nic_cursor == 0 {
            n == (UiState { show_nic_selector: false, selected_nic: None, ..s }) && a is SaveConfig
        } else if s.nic_cursor - 1 < ctx.nics@.len() && ctx.nics@[s.nic_cursor - 1].is_up {
            n == (UiState {
                show_nic_selector: false,
                selected_nic: Some(ctx.nics@[s.nic_cursor - 1].name),
                ..s
            }) && a is SaveConfig
        } else {
            n == (UiState { show_nic_selector: false, ..s }) && a is Nothing
        },
        Command::CloseNicSelector => n == (UiState { show_nic_selector: false, ..s }) && a is Nothing,
        Command::ToggleDiskSelector => a is Nothing && if s.show_disk_selector {
            n == (UiState { show_disk_selector: false, ..s })
        } else {
            n == (UiState {
                show_disk_selector: true,
                disk_cursor: disk_selector_start(s.selected_disk, ctx.disk_entries@, s.disk_cursor as int) as usize,
                ..s
            })
        },
        Command::DiskUp => n == (UiState {
            disk_cursor: if s.disk_cursor > 0 { (s.disk_cursor - 1) as usize } else { s.disk_cursor },
            ..s
        }) && a is Nothing,
        Command::DiskDown => n == (UiState {
            disk_cursor: if s.disk_cursor + 1 < ctx.disk_entries@.len() {
                (s.disk_cursor + 1) as usize
            } else {
                s.disk_cursor
            },
            ..s
        }) && a is Nothing,
        Command::DiskConfirm => if s.disk_cursor < ctx.disk_entries@.len() {
            n == (UiState {
                show_disk_selector: false,
                selected_disk: Some(ctx.disk_entries@[s.disk_cursor as int]),
                ..s
            }) && a is SaveConfig
        } else {
            n == (UiState { show_disk_selector: false, ..s }) && a is Nothing
        },
        Command::CloseDiskSelector => n == (UiState { show_disk_selector: false, ..s }) && a is Nothing,
        Command::IntervalDown | Command::IntervalUp => {
            let d: int = if cmd is IntervalDown { -1 } else { 1 };
            let m = stepped_interval(s.interval_idx as int, d);
            if m != s.interval_idx {
                n == (UiState { interval_idx: m as usize, ..s }) && a == UiAction::SetInterval(m as usize)
            } else {
                n == s && a is Nothing
            }
        },
        Command::FilterType(ch) => {
            &&& n == (UiState {
                process_table: ProcessTableState { filter: n.process_table.filter, ..table_reset(s.process_table) },
                ..s
            })
            &&& n.process_table.filter@ == s.process_table.filter@.push(ch)
            &&& a is Nothing
        },
        Command::FilterBackspace => {
            &&& n == (UiState {
                process_table: ProcessTableState { filter: n.process_table.filter, ..table_reset(s.process_table) },
                ..s
            })
            &&& n.process_table.filter@ == if s.process_table.filter@.len() > 0 {
                s.process_table.filter@.drop_last()
            } else {
                s.process_table.filter@
            }
            &&& a is Nothing
        },
        Command::FilterDone => n == (UiState {
            process_table: ProcessTableState { filter_active: false, ..s.process_table },
            ..s
        }) && a is Nothing,
        Command::ClearFilter => {
            &&& n == (UiState {
                process_table: ProcessTableState { filter: n.process_table.filter, ..table_reset(s.process_table) },
                ..s
            })
            &&& n.process_table.filter@.len() == 0
            &&& a is Nothing
        },
        Command::OpenProcessDetail => n == (UiState { view: View::ProcessDetail, ..s }) && a is Nothing,
        Command::OpenContainerDetail => if ctx.containers@.len() > 0 {
            n == (UiState { view: View::ContainerDetail, ..s }) && a is Nothing
        } else {
            n == s && a is Nothing
        },
        Command::StartFilter => n == (UiState {
            process_table: ProcessTableState { filter_active: true, ..s.process_table },
            ..s
        }) && a is Nothing,
        Command::SortProcesses(col) => {
            let (c2, asc2) = toggled_sort(s.process_table.sort_col, s.process_table.sort_asc, col);
            n == (UiState {
                process_table: ProcessTableState { sort_col: c2, sort_asc: asc2, ..table_reset(s.process_table) },
                ..s
            }) && a is Nothing
        },
        Command::SortContainers(col) => {
            let (c2, asc2) = toggled_sort(s.container_sort_col, s.container_sort_asc, col);
            n == (UiState { container_sort_col: c2, container_sort_asc: asc2, container_cursor: 0, ..s })
                && a is ResortContainers
        },
        Command::ProcessUp | Command::ProcessDown => {
            let d: int = if cmd is ProcessUp { -1 } else { 1 };
            let count = ctx.filtered_process_count as int;
            if count == 0 {
                n == s && a is Nothing
            } else {
                let c = moved_cursor(s.process_table.cursor as int, d, count);
                n == (UiState {
                    process_table: ProcessTableState {
                        cursor: c as usize,
                        scroll: follow_scroll(c, s.process_table.scroll as int, VISIBLE_ROWS_ESTIMATE as int) as usize,
                        ..s.process_table
                    },
                    ..s
                }) && a is Nothing
            }
        },
        Command::ContainerUp | Command::ContainerDown => {
            let d: int = if cmd is ContainerUp { -1 } else { 1 };
            let count = ctx.containers@.len() as int;
            if count == 0 {
                n == s && a is Nothing
            } else {
                n == (UiState { container_cursor: moved_cursor(s.container_cursor as int, d, count) as usize, ..s })
                    && a is Nothing
            }
        },
        Command::Ignore => n == s && a is Nothing,
    }
}

/// Index of the first of `names` equal to `x`, if any.
fn find_name(names: &Vec<String>, x: &String) -> (r: Option<usize>)
    ensures
        r matches Some(i) ==> i == find_name_from(string_seqs(names@), x@, 0),
        r is None ==> find_name_from(string_seqs(names@), x@, 0) == -1,
{
    let ghost ns = string_seqs(names@);
    let mut i: usize = 0;
    while i < names.len()
        invariant
            i <= names@.len(),
            ns == string_seqs(names@),
            find_name_from(ns, x@, 0) == find_name_from(ns, x@, i as int),
        decreases names.len() - i,
    {
        assert(ns[i as int] == names@[i as int]@);
        if names[i] == *x {
            return Some(i);
        }
        i += 1;
    }
    None
}

/// The cursor after moving `delta` rows within `count` rows.
fn clamped_cursor(cursor: usize, delta: i32, count: usize) -> (r: usize)
    requires
        0 < count <= i32::MAX,
        cursor < i32::MAX,
    ensures
        r == moved_cursor(cursor as int, delta as int, count as int),
        r < count,
{
    let c: i64 = cursor as i64 + delta as i64;
    let last: i64 = count as i64 - 1;
    if c < 0 {
        0
    } else if c > last {
        last as usize
    } else {
        c as usize
    }
}

impl UiState {
    /// The state the interface starts in: the main view on the configured
    /// tab, with the configured disk, interface and refresh interval.
    pub fn new(
        tab: Tab,
        selected_disk: Option<String>,
        selected_nic: Option<String>,
        interval_idx: usize,
        lang: Language,
    ) -> (s: Self)
        requires
            interval_idx < N_INTERVALS,
        ensures
            s.wf(),
            s.view == View::Main,
            s.tab == tab,
            !s.show_help,
            !s.show_nic_selector && s.nic_cursor == 0,
            !s.show_disk_selector && s.disk_cursor == 0,
            s.selected_disk == selected_disk,
            s.selected_nic == selected_nic,
            s.process_table.filter@.len() == 0,
            !s.process_table.filter_active,
            s.process_table.sort_col == ProcessSortColumn::Cpu,
            !s.process_table.sort_asc,
            s.process_table.cursor == 0 && s.process_table.scroll == 0,
            s.container_cursor == 0,
            s.container_sort_col == ContainerSortColumn::Name,
            s.container_sort_asc,
            s.confirm_action is None,
            s.logs is None,
            s.interval_idx == interval_idx,
            s.lang == lang,
    {
        UiState {
            view: View::Main,
            tab,
            show_help: false,
            show_nic_selector: false,
            nic_cursor: 0,
            selected_nic,
            show_disk_selector: false,
            disk_cursor: 0,
            selected_disk,
            process_table: ProcessTableState::default(),
            container_cursor: 0,
            container_sort_col: ContainerSortColumn::Name,
            container_sort_asc: true,
            confirm_action: None,
            logs: None,
            interval_idx,
            lang,
        }
    }

    /// What key `k` means in this state.
    pub fn command(&self, k: Key) -> (c: Command)
        ensures
            c == command_for(*self, k),
    {
        let main = self.view == View::Main;
        let procs = self.tab == Tab::Processes;
        let conts = self.tab == Tab::Containers;
        let fa = self.process_table.filter_active;
        let nic = self.show_nic_selector;
        let disk = self.show_disk_selector;
        let logs = self.view == View::ContainerLogs;
        let detail = self.view == View::ContainerDetail;
        let ch: Option<char> = match k {
            Key::Char { c, .. } => Some(c),
            _ => None,
        };
        let is = |x: char| -> (b: bool)
            ensures
                b == is_char(k, x),
            { ch == Some(x) };
        if is('q') && main && !nic && !self.show_help {
            Command::Quit
        } else if k == (Key::Char { c: 'c', ctrl: true }) {
            Command::Quit
        } else if k == Key::F(1) {
            Command::ToggleHelp
        } else if k == Key::Esc && self.show_help {
            Command::CloseHelp
        } else if k == Key::Esc && logs {
            Command::CloseLogs
        } else if is('f') && logs {
            Command::LogsToggleFollow
        } else if k == Key::Up && logs {
            Command::LogsUp
        } else if k == Key::Down && logs {
            Command::LogsDown
        } else if k == Key::Esc && detail && self.confirm_action.is_some() {
            Command::CancelConfirm
        } else if k == Key::Enter && detail && self.confirm_action.is_some() {
            Command::Confirm
        } else if k == Key::Esc && detail {
            Command::CloseContainerDetail
        } else if (is('l') || is('L')) && detail {
            Command::OpenLogs
        } else if (is('r') || is('R')) && detail {
            Command::AskRestart
        } else if (is('s') || is('S')) && detail {
            Command::AskStop
        } else if k == Key::Esc && self.view == View::ProcessDetail {
            Command::CloseProcessDetail
        } else if k == Key::Tab && main {
            Command::SwitchTab
        } else if k == Key::F(3) && main {
            Command::ToggleNicSelector
        } else if k == Key::Up && nic {
            Command::NicUp
        } else if k == Key::Down && nic {
            Command::NicDown
        } else if k == Key::Enter && nic {
            Command::NicConfirm
        } else if k == Key::Esc && nic {
            Command::CloseNicSelector
        } else if k == Key::F(2) && main {
            Command::ToggleDiskSelector
        } else if k == Key::Up && disk {
            Command::DiskUp
        } else if k == Key::Down && disk {
            Command::DiskDown
        } else if k == Key::Enter && disk {
            Command::DiskConfirm
        } else if k == Key::Esc && disk {
            Command::CloseDiskSelector
        } else if is('[') && main && !nic && !disk && !fa {
            Command::IntervalDown
        } else if is(']') && main && !nic && !disk && !fa {
            Command::IntervalUp
        } else if ch.is_some() && fa && procs {
            Command::FilterType(ch.unwrap())
        } else if k == Key::Backspace && fa && procs {
            Command::FilterBackspace
        } else if (k == Key::Esc || k == Key::Enter) && fa && procs {
            Command::FilterDone
        } else if k == Key::Esc && self.process_table.filter.as_str().unicode_len() != 0 && procs {
            Command::ClearFilter
        } else if k == Key::Enter && main && procs && !fa {
            Command::OpenProcessDetail
        } else if k == Key::Enter && main && conts {
            Command::OpenContainerDetail
        } else if is('/') && main && procs && !nic && !disk {
            Command::StartFilter
        } else if is('c') && main && procs && !fa {
            Command::SortProcesses(ProcessSortColumn::Cpu)
        } else if is('m') && main && procs && !fa {
            Command::SortProcesses(ProcessSortColumn::Memory)
        } else if is('r') && main && procs && !fa {
            Command::SortProcesses(ProcessSortColumn::DiskRead)
        } else if is('w') && main && procs && !fa {
            Command::SortProcesses(ProcessSortColumn::DiskWrite)
        } else if is('c') && main && conts {
            Command::SortContainers(ContainerSortColumn::Cpu)
        } else if is('m') && main && conts {
            Command::SortContainers(ContainerSortColumn::Memory)
        } else if is('i') && main && conts {
            Command::SortContainers(ContainerSortColumn::NetRecv)
        } else if is('o') && main && conts {
            Command::SortContainers(ContainerSortColumn::NetSent)
        } else if is('r') && main && conts {
            Command::SortContainers(ContainerSortColumn::DiskRead)
        } else if is('w') && main && conts {
            Command::SortContainers(ContainerSortColumn::DiskWrite)
        } else if k == Key::Up && main && procs && !nic && !disk {
            Command::ProcessUp
        } else if k == Key::Down && main && procs && !nic && !disk {
            Command::ProcessDown
        } else if k == Key::Up && main && conts {
            Command::ContainerUp
        } else if k == Key::Down && main && conts {
            Command::ContainerDown
        } else {
            Command::Ignore
        }
    }
}



impl UiState {
    /// Opens or closes the interface selector. Opening it puts the cursor on
    /// the selected interface, or on the "all" entry when none is selected
    /// or the selected one is no longer listed.
    pub fn toggle_nic_selector(&mut self, nics: &Vec<NicChoice>)
        ensures
            *final(self) == (if old(self).show_nic_selector {
                (UiState { show_nic_selector: false, ..*old(self) })
            } else {
                (UiState {
                    show_nic_selector: true,
                    nic_cursor: nic_selector_start(old(self).selected_nic, nics@) as usize,
                    ..*old(self)
                })
            }),
    {
        self.show_nic_selector = !self.show_nic_selector;
        if self.show_nic_selector {
            self.nic_cursor = match &self.selected_nic {
                None => 0,
                Some(name) => {
                    let n_nics = nics.len();
                    match find_nic(nics, name) {
                        Some(p) => p + 1,
                        None => 0,
                    }
                },
            };
        }
    }

    /// Opens or closes the disk selector. Opening it puts the cursor on the
    /// selected disk, or on the first entry when the selected disk is no
    /// longer listed.
    pub fn toggle_disk_selector(&mut self, entries: &Vec<String>)
        ensures
            *final(self) == (if old(self).show_disk_selector {
                (UiState { show_disk_selector: false, ..*old(self) })
            } else {
                (UiState {
                    show_disk_selector: true,
                    disk_cursor: disk_selector_start(
                        old(self).selected_disk,
                        entries@,
                        old(self).disk_cursor as int,
                    ) as usize,
                    ..*old(self)
                })
            }),
    {
        self.show_disk_selector = !self.show_disk_selector;
        if self.show_disk_selector {
            match &self.selected_disk {
                None => {},
                Some(name) => {
                    self.disk_cursor = match find_name(entries, name) {
                        Some(p) => p,
                        None => 0,
                    };
                },
            }
        }
    }

    /// Selects the disk under the cursor, if there is one, and closes the
    /// selector; returns whether a disk was selected, which is when the
    /// configuration must be stored.
    pub fn disk_selector_confirm(&mut self, entries: &Vec<String>) -> (chosen: bool)
        ensures
            chosen == (old(self).disk_cursor < entries@.len()),
            *final(self) == (UiState {
                show_disk_selector: false,
                selected_disk: if chosen {
                    Some(entries@[old(self).disk_cursor as int])
                } else {
                    old(self).selected_disk
                },
                ..*old(self)
            }),
    {
        let chosen = self.disk_cursor < entries.len();
        if chosen {
            self.selected_disk = Some(entries[self.disk_cursor].clone());
        }
        self.show_disk_selector = false;
        chosen
    }

    /// Moves the process table's cursor by `delta` rows within the `count`
    /// rows that pass the filters, scrolling to keep it on screen; nothing
    /// moves when no row passes.
    pub fn process_move_cursor(&mut self, delta: i32, count: usize)
        requires
            old(self).wf(),
            count <= i32::MAX,
            i32::MIN <= old(self).process_table.cursor + delta <= i32::MAX,
        ensures
            final(self).wf(),
            count == 0 ==> *final(self) == *old(self),
            count > 0 ==> *final(self) == ({
                let c = moved_cursor(old(self).process_table.cursor as int, delta as int, count as int);
                UiState {
                    process_table: ProcessTableState {
                        cursor: c as usize,
                        scroll: follow_scroll(c, old(self).process_table.scroll as int, VISIBLE_ROWS_ESTIMATE as int) as usize,
                        ..old(self).process_table
                    },
                    ..*old(self)
                }
            }),
    {
        self.process_table.move_cursor(delta, count);
    }

    /// Orders the process table by `col`: the column in use flips
    /// direction, another column starts descending; the table goes back to
    /// its first row.
    pub fn process_sort_by(&mut self, col: ProcessSortColumn)
        requires
            old(self).wf(),
        ensures
            final(self).wf(),
            *final(self) == ({
                let (c2, asc2) = toggled_sort(old(self).process_table.sort_col, old(self).process_table.sort_asc, col);
                UiState {
                    process_table: ProcessTableState { sort_col: c2, sort_asc: asc2, ..table_reset(old(self).process_table) },
                    ..*old(self)
                }
            }),
    {
        self.process_table.sort_by(col);
    }

    /// Orders the container table by `col`: the column in use flips
    /// direction, another column starts descending; the cursor goes back to
    /// the first row. The rows themselves are ordered by `sort_containers`.
    pub fn container_sort_by(&mut self, col: ContainerSortColumn)
        ensures
            *final(self) == ({
                let (c2, asc2) = toggled_sort(old(self).container_sort_col, old(self).container_sort_asc, col);
                UiState { container_sort_col: c2, container_sort_asc: asc2, container_cursor: 0, ..*old(self) }
            }),
    {
        if self.container_sort_col == col {
            self.container_sort_asc = !self.container_sort_asc;
        } else {
            self.container_sort_col = col;
            self.container_sort_asc = false;
        }
        self.container_cursor = 0;
    }

    /// Moves the container table's cursor by `delta` rows within `count`
    /// rows; nothing moves when the table is empty.
    pub fn container_move_cursor(&mut self, delta: i32, count: usize)
        requires
            old(self).wf(),
            count <= i32::MAX,
            i32::MIN <= old(self).container_cursor + delta <= i32::MAX,
        ensures
            final(self).wf(),
            count == 0 ==> *final(self) == *old(self),
            count > 0 ==> *final(self) == (UiState {
                container_cursor: moved_cursor(old(self).container_cursor as int, delta as int, count as int) as usize,
                ..*old(self)
            }),
    {
        if count > 0 {
            self.container_cursor = clamped_cursor(self.container_cursor, delta, count);
        }
    }

    /// The order in which the container table lists `rows`: by the chosen
    /// column in the chosen direction, equal values in the order given.
    pub fn sort_containers(&self, rows: &Vec<ContainerRow>) -> (order: Vec<usize>)
        ensures
            is_stable_order(
                container_keys(rows@, self.container_sort_col),
                self.container_sort_asc,
                all_kept(rows@.len()),
                order@,
            ),
    {
        container_order(rows, self.container_sort_col, self.container_sort_asc)
    }

    /// The position of the container under the cursor among `count`
    /// containers, if the cursor is on one.
    pub fn selected_container(&self, count: usize) -> (r: Option<usize>)
        ensures
            r == (if self.container_cursor < count { Some(self.container_cursor) } else { None::<usize> }),
    {
        if self.container_cursor < count {
            Some(self.container_cursor)
        } else {
            None
        }
    }

    /// The position among `rows` of the process under the table's cursor:
    /// the row at the cursor in the table's filtered and ordered listing, if
    /// the listing is that long.
    pub fn selected_process(&self, rows: &Vec<ProcessRow>) -> (r: Option<usize>)
        ensures
            forall|o: Seq<usize>|
                #[trigger] is_stable_order(
                    process_keys(rows@, self.process_table.sort_col),
                    self.process_table.sort_asc,
                    rows_shown(rows@, self.process_table),
                    o,
                ) ==> r == (if self.process_table.cursor < o.len() {
                    Some(o[self.process_table.cursor as int])
                } else {
                    None::<usize>
                }),
    {
        let order = self.process_table.visible_rows(rows);
        proof {
            let keys = process_keys(rows@, self.process_table.sort_col);
            let keep = rows_shown(rows@, self.process_table);
            assert forall|o: Seq<usize>| #[trigger] is_stable_order(keys, self.process_table.sort_asc, keep, o) implies o
                == order@ by {
                law_stable_order_unique(keys, self.process_table.sort_asc, keep, o, order@);
            }
        }
        if self.process_table.cursor < order.len() {
            Some(order[self.process_table.cursor])
        } else {
            None
        }
    }
}

impl UiState {
    /// Carries out command `cmd`, returning what the event loop must do.
    pub fn apply(&mut self, ctx: &UiContext, cmd: Command) -> (a: UiAction)
        requires
            old(self).wf(),
            ctx.wf(),
        ensures
            final(self).wf(),
            command_effect(*old(self), *ctx, cmd, *final(self), a),
    {
        match cmd {
            Command::Quit | Command::ToggleHelp | Command::CloseHelp | Command::CloseLogs | Command::LogsToggleFollow | Command::LogsUp | Command::LogsDown => self.apply_help_and_logs(ctx, cmd),
            Command::CancelConfirm | Command::Confirm | Command::CloseContainerDetail | Command::OpenLogs | Command::AskRestart | Command::AskStop | Command::CloseProcessDetail | Command::SwitchTab | Command::OpenProcessDetail | Command::OpenContainerDetail => self.apply_detail_views(ctx, cmd),
            Command::ToggleNicSelector | Command::NicUp | Command::NicDown | Command::NicConfirm | Command::CloseNicSelector | Command::ToggleDiskSelector | Command::DiskUp | Command::DiskDown | Command::DiskConfirm | Command::CloseDiskSelector => self.apply_selectors(ctx, cmd),
            Command::IntervalDown | Command::IntervalUp | Command::FilterType(..) | Command::FilterBackspace | Command::FilterDone | Command::ClearFilter | Command::StartFilter | Command::SortProcesses(..) | Command::SortContainers(..) => self.apply_table_settings(ctx, cmd),
            Command::ProcessUp | Command::ProcessDown | Command::ContainerUp | Command::ContainerDown | Command::Ignore => self.apply_cursor_moves(ctx, cmd),
        }
    }

    /// The help window, quitting and the log view.
    fn apply_help_and_logs(&mut self, ctx: &UiContext, cmd: Command) -> (a: UiAction)
        requires
            old(self).wf(),
            ctx.wf(),
            cmd is Quit || cmd is ToggleHelp || cmd is CloseHelp || cmd is CloseLogs || cmd is LogsToggleFollow || cmd is LogsUp || cmd is LogsDown,
        ensures
            final(self).wf(),
            command_effect(*old(self), *ctx, cmd, *final(self), a),
    {
        match cmd {
            Command::Quit => UiAction::Quit,
            Command::ToggleHelp => {
                self.show_help = !self.show_help;
                UiAction::Nothing
            },
            Command::CloseHelp => {
                self.show_help = false;
                UiAction::Nothing
            },
            Command::CloseLogs => {
                self.view = View::ContainerDetail;
                self.logs = None;
                UiAction::Nothing
            },
            Command::LogsToggleFollow => {
                match self.logs.take() {
                    Some(mut l) => {
                        l.toggle_follow();
                        self.logs = Some(l);
                    },
                    None => {},
                }
                UiAction::Nothing
            },
            Command::LogsUp => {
                match self.logs.take() {
                    Some(mut l) => {
                        l.scroll_up();
                        self.logs = Some(l);
                    },
                    None => {},
                }
                UiAction::Nothing
            },
            Command::LogsDown => {
                match self.logs.take() {
                    Some(mut l) => {
                        l.scroll_down(LOG_VISIBLE_ROWS);
                        self.logs = Some(l);
                    },
                    None => {},
                }
                UiAction::Nothing
            },
            _ => UiAction::Nothing,
        }
    }

    /// Opening and leaving the detail views, container actions and the tab key.
    fn apply_detail_views(&mut self, ctx: &UiContext, cmd: Command) -> (a: UiAction)
        requires
            old(self).wf(),
            ctx.wf(),
            cmd is CancelConfirm || cmd is Confirm || cmd is CloseContainerDetail || cmd is OpenLogs || cmd is AskRestart || cmd is AskStop || cmd is CloseProcessDetail || cmd is SwitchTab || cmd is OpenProcessDetail || cmd is OpenContainerDetail,
        ensures
            final(self).wf(),
            command_effect(*old(self), *ctx, cmd, *final(self), a),
    {
        match cmd {
            Command::CancelConfirm => {
                self.confirm_action = None;
                UiAction::Nothing
            },
            Command::Confirm => {
                match self.confirm_action.take() {
                    Some(act) => UiAction::RunContainerAction(act),
                    None => UiAction::Nothing,
                }
            },
            Command::CloseContainerDetail => {
                self.view = View::Main;
                UiAction::Nothing
            },
            Command::OpenLogs => {
                if self.container_cursor < ctx.containers.len() {
                    let c = &ctx.containers[self.container_cursor];
                    let l = LogsViewState::new(c.id.clone(), c.name.clone(), self.lang);
                    self.logs = Some(l);
                    self.view = View::ContainerLogs;
                    UiAction::FetchLogs(c.id.clone())
                } else {
                    UiAction::Nothing
                }
            },
            Command::AskRestart => {
                if self.container_cursor < ctx.containers.len() {
                    let id = ctx.containers[self.container_cursor].id.clone();
                    self.confirm_action = Some(ConfirmAction::Restart(id));
                }
                UiAction::Nothing
            },
            Command::AskStop => {
                if self.container_cursor < ctx.containers.len() {
                    let id = ctx.containers[self.container_cursor].id.clone();
                    self.confirm_action = Some(ConfirmAction::Stop(id));
                }
                UiAction::Nothing
            },
            Command::CloseProcessDetail => {
                self.view = View::Main;
                UiAction::Nothing
            },
            Command::SwitchTab => {
                self.tab = match self.tab {
                    Tab::Processes => Tab::Containers,
                    Tab::Containers => Tab::Processes,
                    Tab::Network => Tab::Processes,
                };
                UiAction::SaveConfig
            },
            Command::OpenProcessDetail => {
                self.view = View::ProcessDetail;
                UiAction::Nothing
            },
            Command::OpenContainerDetail => {
                if ctx.containers.len() > 0 {
                    self.view = View::ContainerDetail;
                }
                UiAction::Nothing
            },
            _ => UiAction::Nothing,
        }
    }

    /// The interface and disk selectors.
    fn apply_selectors(&mut self, ctx: &UiContext, cmd: Command) -> (a: UiAction)
        requires
            old(self).wf(),
            ctx.wf(),
            cmd is ToggleNicSelector || cmd is NicUp || cmd is NicDown || cmd is NicConfirm || cmd is CloseNicSelector || cmd is ToggleDiskSelector || cmd is DiskUp || cmd is DiskDown || cmd is DiskConfirm || cmd is CloseDiskSelector,
        ensures
            final(self).wf(),
            command_effect(*old(self), *ctx, cmd, *final(self), a),
    {
        match cmd {
            Command::ToggleNicSelector => {
                self.toggle_nic_selector(&ctx.nics);
                UiAction::Nothing
            },
            Command::NicUp => {
                if self.nic_cursor > 0 {
                    self.nic_cursor -= 1;
                }
                UiAction::Nothing
            },
            Command::NicDown => {
                if self.nic_cursor < ctx.nics.len() {
                    self.nic_cursor += 1;
                }
                UiAction::Nothing
            },
            Command::NicConfirm => {
                let mut a = UiAction::Nothing;
                if self.nic_cursor == 0 {
                    self.selected_nic = None;
                    a = UiAction::SaveConfig;
                } else if self.nic_cursor - 1 < ctx.nics.len() {
                    let nic = &ctx.nics[self.nic_cursor - 1];
                    if nic.is_up {
                        self.selected_nic = Some(nic.name.clone());
                        a = UiAction::SaveConfig;
                    }
                }
                self.show_nic_selector = false;
                a
            },
            Command::CloseNicSelector => {
                self.show_nic_selector = false;
                UiAction::Nothing
            },
            Command::ToggleDiskSelector => {
                self.toggle_disk_selector(&ctx.disk_entries);
                UiAction::Nothing
            },
            Command::DiskUp => {
                if self.disk_cursor > 0 {
                    self.disk_cursor -= 1;
                }
                UiAction::Nothing
            },
            Command::DiskDown => {
                let max = ctx.disk_entries.len().saturating_sub(1);
                if self.disk_cursor < max {
                    self.disk_cursor += 1;
                }
                UiAction::Nothing
            },
            Command::DiskConfirm => {
                if self.disk_selector_confirm(&ctx.disk_entries) {
                    UiAction::SaveConfig
                } else {
                    UiAction::Nothing
                }
            },
            Command::CloseDiskSelector => {
                self.show_disk_selector = false;
                UiAction::Nothing
            },
            _ => UiAction::Nothing,
        }
    }

    /// The refresh interval, the filter line and the table orderings.
    fn apply_table_settings(&mut self, ctx: &UiContext, cmd: Command) -> (a: UiAction)
        requires
            old(self).wf(),
            ctx.wf(),
            cmd is IntervalDown || cmd is IntervalUp || cmd is FilterType || cmd is FilterBackspace || cmd is FilterDone || cmd is ClearFilter || cmd is StartFilter || cmd is SortProcesses || cmd is SortContainers,
        ensures
            final(self).wf(),
            command_effect(*old(self), *ctx, cmd, *final(self), a),
    {
        match cmd {
            Command::IntervalDown | Command::IntervalUp => {
                let d: i32 = match cmd {
                    Command::IntervalDown => -1,
                    _ => 1,
                };
                match step_interval(self.interval_idx, d) {
                    Some(m) => {
                        self.interval_idx = m;
                        UiAction::SetInterval(m)
                    },
                    None => UiAction::Nothing,
                }
            },
            Command::FilterType(ch) => {
                let mut v = chars_of(self.process_table.filter.as_str());
                v.push(ch);
                self.process_table.filter = string_from_chars(v.as_slice());
                self.process_table.cursor = 0;
                self.process_table.scroll = 0;
                UiAction::Nothing
            },
            Command::FilterBackspace => {
                let mut v = chars_of(self.process_table.filter.as_str());
                v.pop();
                proof {
                    if old(self).process_table.filter@.len() > 0 {
                        assert(v@ =~= old(self).process_table.filter@.drop_last());
                    }
                }
                self.process_table.filter = string_from_chars(v.as_slice());
                self.process_table.cursor = 0;
                self.process_table.scroll = 0;
                UiAction::Nothing
            },
            Command::FilterDone => {
                self.process_table.filter_active = false;
                UiAction::Nothing
            },
            Command::ClearFilter => {
                self.process_table.filter = String::new();
                self.process_table.cursor = 0;
                self.process_table.scroll = 0;
                UiAction::Nothing
            },
            Command::StartFilter => {
                self.process_table.filter_active = true;
                UiAction::Nothing
            },
            Command::SortProcesses(col) => {
                self.process_sort_by(col);
                UiAction::Nothing
            },
            Command::SortContainers(col) => {
                self.container_sort_by(col);
                UiAction::ResortContainers
            },
            _ => UiAction::Nothing,
        }
    }

    /// Cursor moves in the tables, and keys that do nothing.
    fn apply_cursor_moves(&mut self, ctx: &UiContext, cmd: Command) -> (a: UiAction)
        requires
            old(self).wf(),
            ctx.wf(),
            cmd is ProcessUp || cmd is ProcessDown || cmd is ContainerUp || cmd is ContainerDown || cmd is Ignore,
        ensures
            final(self).wf(),
            command_effect(*old(self), *ctx, cmd, *final(self), a),
    {
        match cmd {
            Command::ProcessUp | Command::ProcessDown => {
                let d: i32 = match cmd {
                    Command::ProcessUp => -1,
                    _ => 1,
                };
                self.process_move_cursor(d, ctx.filtered_process_count);
                UiAction::Nothing
            },
            Command::ContainerUp | Command::ContainerDown => {
                let d: i32 = match cmd {
                    Command::ContainerUp => -1,
                    _ => 1,
                };
                self.container_move_cursor(d, ctx.containers.len());
                UiAction::Nothing
            },
            Command::Ignore => UiAction::Nothing,
            _ => UiAction::Nothing,
        }
    }

    /// Handles one key press: looks the key up in the key table and carries
    /// out the command it stands for.
    pub fn handle_key(&mut self, ctx: &UiContext, k: Key) -> (a: UiAction)
        requires
            old(self).wf(),
            ctx.wf(),
        ensures
            final(self).wf(),
            command_effect(*old(self), *ctx, command_for(*old(self), k), *final(self), a),
    {
        let cmd = self.command(k);
        self.apply(ctx, cmd)
    }
}

/// Position of the interface called `x` among `nics`, if it is listed.
fn find_nic(nics: &Vec<NicChoice>, x: &String) -> (r: Option<usize>)
    ensures
        r matches Some(i) ==> i == find_name_from(nic_names(nics@), x@, 0) && i < nics@.len(),
        r is None ==> find_name_from(nic_names(nics@), x@, 0) == -1,
{
    let ghost ns = nic_names(nics@);
    let mut i: usize = 0;
    while i < nics.len()
        invariant
            i <= nics@.len(),
            ns == nic_names(nics@),
            find_name_from(ns, x@, 0) == find_name_from(ns, x@, i as int),
        decreases nics.len() - i,
    {
        assert(ns[i as int] == nics@[i as int].name@);
        if nics[i].name == *x {
            return Some(i);
        }
        i += 1;
    }
    None
}


/// Control-C quits from every screen and every mode.
pub proof fn law_ctrl_c_quits(s: UiState)
    ensures
        command_for(s, Key::Char { c: 'c', ctrl: true }) == Command::Quit,
{
}

/// F1 always toggles the help window, so pressing it twice restores the
/// state, and neither press asks anything of the event loop.
pub proof fn law_help_toggles(s: UiState, ctx: UiContext, n1: UiState, a1: UiAction, n2: UiState, a2: UiAction)
    requires
        command_effect(s, ctx, command_for(s, Key::F(1)), n1, a1),
        command_effect(n1, ctx, command_for(n1, Key::F(1)), n2, a2),
    ensures
        n1.show_help == !s.show_help,
        n2 == s,
        a1 is Nothing && a2 is Nothing,
{
}

/// Typing a character into the filter and erasing it gives back the filter
/// text it started with; the rest of the state is kept, apart from the
/// table going back to its first row.
pub proof fn law_filter_type_then_erase(
    s: UiState,
    ctx: UiContext,
    ch: char,
    n1: UiState,
    a1: UiAction,
    n2: UiState,
    a2: UiAction,
)
    requires
        command_effect(s, ctx, Command::FilterType(ch), n1, a1),
        command_effect(n1, ctx, Command::FilterBackspace, n2, a2),
    ensures
        n2.process_table.filter@ == s.process_table.filter@,
        n2.process_table.cursor == 0 && n2.process_table.scroll == 0,
        n2.process_table.filter_active == s.process_table.filter_active,
        n2.view == s.view && n2.tab == s.tab && n2.logs == s.logs,
{
    assert(s.process_table.filter@.push(ch).drop_last() =~= s.process_table.filter@);
}

/// The tab key alternates between the process and container tabs, and
/// leaves the network tab for the process tab; each press asks for the
/// configuration to be stored.
pub proof fn law_tab_alternates(s: UiState, ctx: UiContext, n1: UiState, a1: UiAction, n2: UiState, a2: UiAction)
    requires
        s.tab != Tab::Network,
        command_effect(s, ctx, Command::SwitchTab, n1, a1),
        command_effect(n1, ctx, Command::SwitchTab, n2, a2),
    ensures
        n1.tab != s.tab,
        n2 == s,
        a1 is SaveConfig && a2 is SaveConfig,
{
}

/// Escape leaves a detail view when no dialog, selector or help window is
/// in the way: the log view goes back to its container, the container and
/// process views back to the main view.
pub proof fn law_escape_goes_back(s: UiState, ctx: UiContext, n: UiState, a: UiAction)
    requires
        !s.show_help,
        s.confirm_action is None,
        s.view != View::Main,
        command_effect(s, ctx, command_for(s, Key::Esc), n, a),
    ensures
        s.view == View::ContainerLogs ==> n.view == View::ContainerDetail && n.logs is None,
        s.view == View::ContainerDetail ==> n.view == View::Main,
        s.view == View::ProcessDetail ==> n.view == View::Main,
        a is Nothing,
{
}

/// Every key keeps the state well formed, so the event loop can hand every
/// key to the handler.
pub proof fn law_keys_keep_state_valid(s: UiState, ctx: UiContext, k: Key, n: UiState, a: UiAction)
    requires
        s.wf(),
        ctx.wf(),
        command_effect(s, ctx, command_for(s, k), n, a),
    ensures
        n.wf(),
{
}

/// The keys the help screen documents do what it says on the main screen,
/// with no window, selector or filter line open: `q` quits, Tab switches
/// tabs, Enter opens the detail of the row under the cursor, `c` `m` `r` `w`
/// order the process table by CPU, memory, disk reads and disk writes, `/`
/// starts the filter, F2 and F3 open the disk and network selectors, and
/// `[` `]` make the refresh faster or slower.
pub proof fn law_documented_keys(s: UiState)
    requires
        s.view == View::Main,
        !s.show_help,
        !s.show_nic_selector,
        !s.show_disk_selector,
        !s.process_table.filter_active,
    ensures
        command_for(s, Key::Char { c: 'q', ctrl: false }) == Command::Quit,
        command_for(s, Key::Tab) == Command::SwitchTab,
        s.tab == Tab::Processes ==> command_for(s, Key::Enter) == Command::OpenProcessDetail,
        s.tab == Tab::Containers ==> command_for(s, Key::Enter) == Command::OpenContainerDetail,
        s.tab == Tab::Processes ==> command_for(s, Key::Char { c: 'c', ctrl: false }) == Command::SortProcesses(
            ProcessSortColumn::Cpu,
        ),
        s.tab == Tab::Processes ==> command_for(s, Key::Char { c: 'm', ctrl: false }) == Command::SortProcesses(
            ProcessSortColumn::Memory,
        ),
        s.tab == Tab::Processes ==> command_for(s, Key::Char { c: 'r', ctrl: false }) == Command::SortProcesses(
            ProcessSortColumn::DiskRead,
        ),
        s.tab == Tab::Processes ==> command_for(s, Key::Char { c: 'w', ctrl: false }) == Command::SortProcesses(
            ProcessSortColumn::DiskWrite,
        ),
        s.tab == Tab::Processes ==> command_for(s, Key::Char { c: '/', ctrl: false }) == Command::StartFilter,
        command_for(s, Key::F(2)) == Command::ToggleDiskSelector,
        command_for(s, Key::F(3)) == Command::ToggleNicSelector,
        command_for(s, Key::Char { c: '[', ctrl: false }) == Command::IntervalDown,
        command_for(s, Key::Char { c: ']', ctrl: false }) == Command::IntervalUp,
{
}

/// Escape closes whatever lies on top: the help window first, then, on the
/// main screen, the network selector, then the disk selector; nothing else
/// changes and nothing is asked of the event loop.
pub proof fn law_escape_closes_overlays(s: UiState, ctx: UiContext, n: UiState, a: UiAction)
    requires
        command_effect(s, ctx, command_for(s, Key::Esc), n, a),
    ensures
        s.show_help ==> n == (UiState { show_help: false, ..s }) && a is Nothing,
        !s.show_help && s.view == View::Main && s.show_nic_selector ==> n == (UiState {
            show_nic_selector: false,
            ..s
        }) && a is Nothing,
        !s.show_help && s.view == View::Main && !s.show_nic_selector && s.show_disk_selector ==> n == (UiState {
            show_disk_selector: false,
            ..s
        }) && a is Nothing,
{
}

/// In a container's detail view the action keys work in either letter case:
/// `l`/`L` opens the logs, `r`/`R` asks to restart and `s`/`S` asks to stop.
pub proof fn law_detail_action_keys(s: UiState, ctrl: bool)
    requires
        s.view == View::ContainerDetail,
    ensures
        command_for(s, Key::Char { c: 'l', ctrl }) == Command::OpenLogs,
        command_for(s, Key::Char { c: 'L', ctrl }) == Command::OpenLogs,
        command_for(s, Key::Char { c: 'r', ctrl }) == Command::AskRestart,
        command_for(s, Key::Char { c: 'R', ctrl }) == Command::AskRestart,
        command_for(s, Key::Char { c: 's', ctrl }) == Command::AskStop,
        command_for(s, Key::Char { c: 'S', ctrl }) == Command::AskStop,
{
}

} // verus!
