use rtop::app::{NicChoice, UiState};
use rtop::config::Tab;
use rtop::localization::Language;
use rtop::models::container::ContainerSortColumn;
use rtop::models::process::{ProcessSortColumn, ProcessStatus};
use rtop::order::{stable_order, SortKey};
use rtop::ui::widgets::container_table::{container_order, ContainerRow};
use rtop::ui::widgets::process_table::{filtered_process_count, ProcessRow, ProcessStatusFilter};

fn num(n: u64) -> SortKey {
    SortKey { text: vec![], number: n }
}

fn text(s: &str) -> SortKey {
    SortKey { text: s.chars().collect(), number: 0 }
}

fn proc_row(name: &str, status: ProcessStatus, cpu: u64, mem: u64, read: Option<u64>) -> ProcessRow {
    ProcessRow {
        name: name.to_string(),
        status,
        cpu,
        memory: mem,
        disk_read: read,
        disk_write: None,
        net_rx: None,
        net_tx: None,
    }
}

fn cont_row(name: &str, cpu: u64, mem: u64) -> ContainerRow {
    ContainerRow { name: name.to_string(), cpu, memory: mem, net_recv: 0, net_sent: 0, disk_read: 0, disk_write: 0 }
}

fn state() -> UiState {
    UiState::new(Tab::Processes, None, None, 2, Language::English)
}

#[test]
fn stable_order_ascending_keeps_ties_in_place() {
    let keys = vec![num(3), num(1), num(3), num(2), num(1)];
    let keep = vec![true; 5];
    assert_eq!(stable_order(&keys, &keep, true), vec![1, 4, 3, 0, 2]);
}

#[test]
fn stable_order_descending_keeps_ties_in_place() {
    let keys = vec![num(3), num(1), num(3), num(2), num(1)];
    let keep = vec![true; 5];
    assert_eq!(stable_order(&keys, &keep, false), vec![0, 2, 3, 1, 4]);
}

#[test]
fn stable_order_skips_unkept_positions() {
    let keys = vec![num(5), num(4), num(3)];
    let keep = vec![true, false, true];
    assert_eq!(stable_order(&keys, &keep, true), vec![2, 0]);
    assert_eq!(stable_order(&keys, &vec![false; 3], true), Vec::<usize>::new());
}

#[test]
fn stable_order_by_text_is_letter_by_letter() {
    let keys = vec![text("web"), text("api"), text("ap"), text("web")];
    assert_eq!(stable_order(&keys, &vec![true; 4], true), vec![2, 1, 0, 3]);
    assert_eq!(stable_order(&keys, &vec![true; 4], false), vec![0, 3, 1, 2]);
}

#[test]
fn container_order_by_each_column() {
    let rows = vec![cont_row("web", 30, 100), cont_row("db", 10, 300), cont_row("cache", 20, 200)];
    assert_eq!(container_order(&rows, ContainerSortColumn::Name, true), vec![2, 1, 0]);
    assert_eq!(container_order(&rows, ContainerSortColumn::Cpu, false), vec![0, 2, 1]);
    assert_eq!(container_order(&rows, ContainerSortColumn::Memory, true), vec![0, 2, 1]);
}

#[test]
fn sort_containers_follows_the_chosen_column() {
    let rows = vec![cont_row("web", 30, 100), cont_row("db", 10, 300), cont_row("cache", 20, 200)];
    let mut s = state();
    // the table starts ordered by name, ascending
    assert!(s.container_sort_asc);
    assert_eq!(s.sort_containers(&rows), vec![2, 1, 0]);
    s.container_sort_by(ContainerSortColumn::Name);
    assert!(!s.container_sort_asc);
    assert_eq!(s.sort_containers(&rows), vec![0, 1, 2]);
    s.container_sort_by(ContainerSortColumn::Memory);
    assert!(!s.container_sort_asc);
    assert_eq!(s.container_sort_col, ContainerSortColumn::Memory);
    assert_eq!(s.sort_containers(&rows), vec![1, 2, 0]);
}

#[test]
fn visible_rows_filter_then_order() {
    let rows = vec![
        proc_row("Firefox", ProcessStatus::Running, 50, 10, Some(7)),
        proc_row("bash", ProcessStatus::Sleeping, 5, 30, None),
        proc_row("fire-helper", ProcessStatus::Sleeping, 70, 20, Some(1)),
        proc_row("sshd", ProcessStatus::Running, 5, 40, Some(3)),
    ];
    let mut s = state();
    // default: by CPU, highest first; equal CPU keeps the given order
    assert_eq!(s.process_table.visible_rows(&rows), vec![2, 0, 1, 3]);
    s.process_table.filter = "FIRE".to_string();
    assert_eq!(s.process_table.visible_rows(&rows), vec![2, 0]);
    s.process_table.status_filter = ProcessStatusFilter::Running;
    assert_eq!(s.process_table.visible_rows(&rows), vec![0]);
    s.process_table.filter = String::new();
    assert_eq!(s.process_table.visible_rows(&rows), vec![0, 3]);
    s.process_table.status_filter = ProcessStatusFilter::All;
    s.process_sort_by(ProcessSortColumn::DiskRead);
    // a missing rate orders as zero
    assert_eq!(s.process_table.visible_rows(&rows), vec![0, 3, 2, 1]);
    s.process_sort_by(ProcessSortColumn::Name);
    s.process_sort_by(ProcessSortColumn::Name);
    assert!(s.process_table.sort_asc);
    // names are compared in lowercase
    assert_eq!(s.process_table.visible_rows(&rows), vec![1, 2, 0, 3]);
}

#[test]
fn selected_process_is_the_row_under_the_cursor() {
    let rows = vec![
        proc_row("a", ProcessStatus::Running, 1, 0, None),
        proc_row("b", ProcessStatus::Running, 9, 0, None),
        proc_row("c", ProcessStatus::Running, 5, 0, None),
    ];
    let mut s = state();
    assert_eq!(s.selected_process(&rows), Some(1));
    s.process_move_cursor(1, 3);
    assert_eq!(s.selected_process(&rows), Some(2));
    s.process_move_cursor(1, 3);
    s.process_move_cursor(1, 3);
    assert_eq!(s.process_table.cursor, 2);
    assert_eq!(s.selected_process(&rows), Some(0));
    assert_eq!(s.selected_process(&vec![]), None);
}

#[test]
fn selected_container_needs_a_row_under_the_cursor() {
    let mut s = state();
    assert_eq!(s.selected_container(2), Some(0));
    assert_eq!(s.selected_container(0), None);
    s.container_move_cursor(1, 2);
    assert_eq!(s.selected_container(2), Some(1));
    s.container_move_cursor(1, 2);
    assert_eq!(s.container_cursor, 1);
    s.container_move_cursor(-1, 0);
    assert_eq!(s.container_cursor, 1);
}

#[test]
fn selectors_open_on_the_current_choice() {
    let nics = vec![
        NicChoice { name: "eth0".to_string(), is_up: true },
        NicChoice { name: "wlan0".to_string(), is_up: true },
    ];
    let mut s = UiState::new(Tab::Processes, Some("sdb".to_string()), Some("wlan0".to_string()), 2, Language::English);
    s.toggle_nic_selector(&nics);
    assert!(s.show_nic_selector);
    assert_eq!(s.nic_cursor, 2);
    s.toggle_nic_selector(&nics);
    assert!(!s.show_nic_selector);
    let entries = vec!["sda".to_string(), "sdb".to_string()];
    s.toggle_disk_selector(&entries);
    assert!(s.show_disk_selector);
    assert_eq!(s.disk_cursor, 1);
    s.disk_cursor = 0;
    assert!(s.disk_selector_confirm(&entries));
    assert_eq!(s.selected_disk, Some("sda".to_string()));
    assert!(!s.show_disk_selector);
    s.disk_cursor = 5;
    assert!(!s.disk_selector_confirm(&entries));
    assert_eq!(s.selected_disk, Some("sda".to_string()));
}

#[test]
fn listed_rows_match_the_cursor_count() {
    let rows = vec![
        proc_row("Firefox", ProcessStatus::Running, 50, 10, None),
        proc_row("bash", ProcessStatus::Sleeping, 5, 30, None),
        proc_row("fire-helper", ProcessStatus::Zombie, 70, 20, None),
    ];
    let names: Vec<String> = rows.iter().map(|r| r.name.clone()).collect();
    let mut s = state();
    for filter in ["", "fire", "BASH", "zzz"] {
        s.process_table.filter = filter.to_string();
        assert_eq!(s.process_table.visible_rows(&rows).len(), filtered_process_count(&names, filter), "{filter}");
    }
}
