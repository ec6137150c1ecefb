use rtop::app::{Command, ContainerRef, Key, NicChoice, UiAction, UiContext, UiState, View};
use rtop::config::Tab;
use rtop::localization::Language;
use rtop::models::container::ContainerSortColumn;
use rtop::models::process::ProcessSortColumn;
use rtop::ui::views::container_detail::ConfirmAction;

fn ctx() -> UiContext {
    UiContext {
        nics: vec![
            NicChoice { name: "eth0".to_string(), is_up: true },
            NicChoice { name: "docker0".to_string(), is_up: false },
        ],
        disk_entries: vec!["nvme0n1".to_string(), "sda".to_string()],
        containers: vec![
            ContainerRef { id: "c1".to_string(), name: "web".to_string() },
            ContainerRef { id: "c2".to_string(), name: "db".to_string() },
        ],
        filtered_process_count: 3,
    }
}

fn state() -> UiState {
    UiState::new(Tab::Processes, None, None, 2, Language::English)
}

fn ch(c: char) -> Key {
    Key::Char { c, ctrl: false }
}

#[test]
fn quit_keys() {
    let mut s = state();
    assert!(matches!(s.handle_key(&ctx(), ch('q')), UiAction::Quit));
    let mut s2 = state();
    s2.show_help = true;
    assert!(matches!(s2.handle_key(&ctx(), ch('q')), UiAction::Nothing));
    assert!(matches!(s2.handle_key(&ctx(), Key::Char { c: 'c', ctrl: true }), UiAction::Quit));
}

#[test]
fn help_toggles_and_escape_closes_it() {
    let mut s = state();
    s.handle_key(&ctx(), Key::F(1));
    assert!(s.show_help);
    s.handle_key(&ctx(), Key::Esc);
    assert!(!s.show_help);
    s.handle_key(&ctx(), Key::F(1));
    s.handle_key(&ctx(), Key::F(1));
    assert!(!s.show_help);
}

#[test]
fn tab_switches_and_saves() {
    let mut s = state();
    assert!(matches!(s.handle_key(&ctx(), Key::Tab), UiAction::SaveConfig));
    assert_eq!(s.tab, Tab::Containers);
    s.handle_key(&ctx(), Key::Tab);
    assert_eq!(s.tab, Tab::Processes);
    let mut n = UiState::new(Tab::Network, None, None, 2, Language::English);
    n.handle_key(&ctx(), Key::Tab);
    assert_eq!(n.tab, Tab::Processes);
}

#[test]
fn interval_keys_step_and_stop_at_the_ends() {
    let mut s = state();
    assert!(matches!(s.handle_key(&ctx(), ch(']')), UiAction::SetInterval(3)));
    assert_eq!(s.interval_idx, 3);
    let mut lo = UiState::new(Tab::Processes, None, None, 0, Language::English);
    assert!(matches!(lo.handle_key(&ctx(), ch('[')), UiAction::Nothing));
    assert_eq!(lo.interval_idx, 0);
}

#[test]
fn process_filter_editing() {
    let mut s = state();
    s.handle_key(&ctx(), ch('/'));
    assert!(s.process_table.filter_active);
    s.handle_key(&ctx(), ch('n'));
    s.handle_key(&ctx(), ch('o'));
    assert_eq!(s.process_table.filter, "no");
    s.handle_key(&ctx(), Key::Backspace);
    assert_eq!(s.process_table.filter, "n");
    s.handle_key(&ctx(), Key::Enter);
    assert!(!s.process_table.filter_active);
    s.handle_key(&ctx(), Key::Esc);
    assert_eq!(s.process_table.filter, "");
}

#[test]
fn process_navigation_and_sorting() {
    let mut s = state();
    s.handle_key(&ctx(), Key::Down);
    s.handle_key(&ctx(), Key::Down);
    s.handle_key(&ctx(), Key::Down);
    assert_eq!(s.process_table.cursor, 2);
    s.handle_key(&ctx(), ch('m'));
    assert_eq!(s.process_table.sort_col, ProcessSortColumn::Memory);
    assert_eq!(s.process_table.cursor, 0);
    s.handle_key(&ctx(), ch('m'));
    assert!(s.process_table.sort_asc);
    s.handle_key(&ctx(), Key::Enter);
    assert_eq!(s.view, View::ProcessDetail);
}

#[test]
fn container_detail_actions_and_logs() {
    let mut s = UiState::new(Tab::Containers, None, None, 2, Language::Spanish);
    s.handle_key(&ctx(), Key::Down);
    assert_eq!(s.container_cursor, 1);
    assert!(matches!(s.handle_key(&ctx(), ch('i')), UiAction::ResortContainers));
    assert_eq!(s.container_sort_col, ContainerSortColumn::NetRecv);
    assert_eq!(s.container_cursor, 0);
    s.handle_key(&ctx(), Key::Enter);
    assert_eq!(s.view, View::ContainerDetail);
    s.handle_key(&ctx(), ch('r'));
    assert_eq!(s.confirm_action, Some(ConfirmAction::Restart("c1".to_string())));
    match s.handle_key(&ctx(), Key::Enter) {
        UiAction::RunContainerAction(a) => assert_eq!(a, ConfirmAction::Restart("c1".to_string())),
        _ => panic!("expected the confirmed action"),
    }
    assert_eq!(s.confirm_action, None);
    match s.handle_key(&ctx(), ch('l')) {
        UiAction::FetchLogs(id) => assert_eq!(id, "c1"),
        _ => panic!("expected a log fetch"),
    }
    assert_eq!(s.view, View::ContainerLogs);
    assert_eq!(s.logs.as_ref().unwrap().container_name, "web");
    s.handle_key(&ctx(), ch('f'));
    assert!(s.logs.as_ref().unwrap().follow);
    s.handle_key(&ctx(), Key::Esc);
    assert_eq!(s.view, View::ContainerDetail);
    assert!(s.logs.is_none());
    s.handle_key(&ctx(), Key::Esc);
    assert_eq!(s.view, View::Main);
}

#[test]
fn nic_selector_opens_on_selection_and_confirms_only_up_interfaces() {
    let mut s = UiState::new(Tab::Processes, None, Some("docker0".to_string()), 2, Language::English);
    s.handle_key(&ctx(), Key::F(3));
    assert!(s.show_nic_selector);
    assert_eq!(s.nic_cursor, 2);
    assert!(matches!(s.handle_key(&ctx(), Key::Enter), UiAction::Nothing));
    assert_eq!(s.selected_nic, Some("docker0".to_string()));
    assert!(!s.show_nic_selector);
    s.handle_key(&ctx(), Key::F(3));
    s.handle_key(&ctx(), Key::Up);
    assert_eq!(s.nic_cursor, 1);
    assert!(matches!(s.handle_key(&ctx(), Key::Enter), UiAction::SaveConfig));
    assert_eq!(s.selected_nic, Some("eth0".to_string()));
    s.handle_key(&ctx(), Key::F(3));
    s.handle_key(&ctx(), Key::Up);
    s.handle_key(&ctx(), Key::Enter);
    assert_eq!(s.selected_nic, None);
}

#[test]
fn disk_selector_moves_and_confirms() {
    let mut s = UiState::new(Tab::Processes, Some("sda".to_string()), None, 2, Language::English);
    s.handle_key(&ctx(), Key::F(2));
    assert_eq!(s.disk_cursor, 1);
    s.handle_key(&ctx(), Key::Down);
    assert_eq!(s.disk_cursor, 1);
    s.handle_key(&ctx(), Key::Up);
    assert!(matches!(s.handle_key(&ctx(), Key::Enter), UiAction::SaveConfig));
    assert_eq!(s.selected_disk, Some("nvme0n1".to_string()));
    assert!(!s.show_disk_selector);
}

#[test]
fn commands_follow_the_key_table_order() {
    let s = state();
    assert_eq!(s.command(Key::Other), Command::Ignore);
    assert_eq!(s.command(ch('c')), Command::SortProcesses(ProcessSortColumn::Cpu));
    let mut f = state();
    f.process_table.filter_active = true;
    assert_eq!(f.command(ch('c')), Command::FilterType('c'));
    assert_eq!(f.command(ch('q')), Command::Quit);
}

#[test]
fn documented_main_screen_keys() {
    let s = state();
    assert_eq!(s.command(ch('q')), Command::Quit);
    assert_eq!(s.command(Key::Tab), Command::SwitchTab);
    assert_eq!(s.command(Key::Enter), Command::OpenProcessDetail);
    assert_eq!(s.command(ch('c')), Command::SortProcesses(ProcessSortColumn::Cpu));
    assert_eq!(s.command(ch('m')), Command::SortProcesses(ProcessSortColumn::Memory));
    assert_eq!(s.command(ch('r')), Command::SortProcesses(ProcessSortColumn::DiskRead));
    assert_eq!(s.command(ch('w')), Command::SortProcesses(ProcessSortColumn::DiskWrite));
    assert_eq!(s.command(ch('/')), Command::StartFilter);
    assert_eq!(s.command(Key::F(2)), Command::ToggleDiskSelector);
    assert_eq!(s.command(Key::F(3)), Command::ToggleNicSelector);
    assert_eq!(s.command(ch('[')), Command::IntervalDown);
    assert_eq!(s.command(ch(']')), Command::IntervalUp);
    let c = UiState::new(Tab::Containers, None, None, 2, Language::English);
    assert_eq!(c.command(Key::Enter), Command::OpenContainerDetail);
}

#[test]
fn escape_closes_the_topmost_overlay() {
    let mut s = state();
    s.show_help = true;
    s.show_nic_selector = true;
    assert!(matches!(s.handle_key(&ctx(), Key::Esc), UiAction::Nothing));
    assert!(!s.show_help);
    assert!(s.show_nic_selector);
    s.show_disk_selector = true;
    s.handle_key(&ctx(), Key::Esc);
    assert!(!s.show_nic_selector);
    assert!(s.show_disk_selector);
    s.handle_key(&ctx(), Key::Esc);
    assert!(!s.show_disk_selector);
    assert_eq!(s.view, View::Main);
}

#[test]
fn container_detail_keys_in_capitals() {
    let mut s = UiState::new(Tab::Containers, None, None, 2, Language::English);
    s.handle_key(&ctx(), Key::Enter);
    assert_eq!(s.view, View::ContainerDetail);
    assert_eq!(s.command(ch('R')), Command::AskRestart);
    assert_eq!(s.command(ch('S')), Command::AskStop);
    assert_eq!(s.command(ch('L')), Command::OpenLogs);
    s.handle_key(&ctx(), ch('S'));
    assert_eq!(s.confirm_action, Some(ConfirmAction::Stop("c1".to_string())));
    s.handle_key(&ctx(), Key::Esc);
    assert_eq!(s.confirm_action, None);
    match s.handle_key(&ctx(), ch('L')) {
        UiAction::FetchLogs(id) => assert_eq!(id, "c1"),
        _ => panic!("expected a log fetch"),
    }
}
