use rtop::config::{interval_index_of, interval_label, interval_millis, step_interval, SortColumn, Tab, DEFAULT_INTERVAL_IDX};
use rtop::localization::Language;
use rtop::models::process::{ProcessSortColumn, ProcessStatus};
use rtop::ui::history::{BoundedHistory, HistoryRange, MAX_SAMPLES};
use rtop::ui::theme::ThemeMode;
use rtop::ui::views::container_detail::ConfirmAction;
use rtop::ui::views::container_logs::LogsViewState;
use rtop::ui::widgets::process_table::{col_header, filtered_process_count, ProcessStatusFilter, ProcessTableState};

#[test]
fn history_ranges_cycle_with_their_sample_counts() {
    let mut r = HistoryRange::OneMin;
    let expected = [(60, "1 min"), (300, "5 min"), (900, "15 min"), (3600, "1 hora")];
    for (n, label) in expected {
        assert_eq!(r.samples(), n);
        assert_eq!(r.label(), label);
        r = r.next();
    }
    assert_eq!(r, HistoryRange::OneMin);
}

#[test]
fn bounded_history_keeps_the_newest_samples() {
    let mut h: BoundedHistory<u32> = BoundedHistory::new();
    for i in 0..(MAX_SAMPLES as u32 + 5) {
        h.push(i);
    }
    assert_eq!(h.samples.len(), MAX_SAMPLES);
    assert_eq!(*h.samples.front().unwrap(), 5);
    assert_eq!(*h.samples.back().unwrap(), MAX_SAMPLES as u32 + 4);
    let tail = h.tail_n(3);
    assert_eq!(tail, vec![&(MAX_SAMPLES as u32 + 2), &(MAX_SAMPLES as u32 + 3), &(MAX_SAMPLES as u32 + 4)]);
    let mut small: BoundedHistory<u32> = BoundedHistory::new();
    small.push(1);
    small.push(2);
    assert_eq!(small.tail_n(10), vec![&1, &2]);
    assert!(small.tail_n(0).is_empty());
}

#[test]
fn theme_cycle_names_and_codes() {
    let mut m = ThemeMode::default();
    assert_eq!(m, ThemeMode::Dark);
    let names = ["Dark", "Light", "Nord", "Matrix", "Sunset", "Dracula", "Gruvbox", "Tokyo Night"];
    for (code, name) in names.iter().enumerate() {
        assert_eq!(m.name(), *name);
        assert_eq!(m.code() as usize, code);
        assert_eq!(ThemeMode::from_code(m.code()), m);
        m = m.next();
    }
    assert_eq!(m, ThemeMode::Dark);
    assert_eq!(ThemeMode::from_code(200), ThemeMode::Dark);
}

#[test]
fn interval_labels_and_steps() {
    let labels = ["0.5s", "1s", "2s", "5s", "10s", "30s", "60s"];
    for (i, l) in labels.iter().enumerate() {
        assert_eq!(interval_label(i), *l);
    }
    assert_eq!(interval_millis(DEFAULT_INTERVAL_IDX), 2000);
    assert_eq!(interval_index_of(5000), Some(3));
    assert_eq!(interval_index_of(3000), None);
    assert_eq!(step_interval(2, 1), Some(3));
    assert_eq!(step_interval(2, -1), Some(1));
    assert_eq!(step_interval(0, -1), None);
    assert_eq!(step_interval(6, 1), None);
    assert_eq!(Tab::default(), Tab::Processes);
    assert_eq!(SortColumn::default(), SortColumn::Cpu);
}

#[test]
fn logs_view_scrolling_and_following() {
    let mut l = LogsViewState::new("abc".to_string(), "web".to_string(), Language::English);
    assert_eq!(l.scroll, 0);
    assert!(!l.follow);
    let lines: Vec<String> = (0..30).map(|i| format!("line {}", i)).collect();
    l.load_history(lines, 20);
    assert_eq!(l.lines.len(), 30);
    assert_eq!(l.scroll, 10);
    l.scroll_down(20);
    assert_eq!(l.scroll, 10);
    l.scroll_up();
    assert_eq!(l.scroll, 9);
    l.scroll_down(20);
    assert_eq!(l.scroll, 10);
    l.toggle_follow();
    assert!(l.follow);
    assert_eq!(l.scroll, 30);
    l.push_line("new".to_string(), 20);
    assert_eq!(l.lines.len(), 31);
    assert_eq!(l.scroll, 11);
    l.scroll_up();
    assert!(!l.follow);
    assert_eq!(l.scroll, 10);
    l.push_line("newer".to_string(), 20);
    assert_eq!(l.scroll, 10);
    let mut top = LogsViewState::new("x".to_string(), "y".to_string(), Language::Spanish);
    top.scroll_up();
    assert_eq!(top.scroll, 0);
}

#[test]
fn status_filter_cycle_and_matching() {
    let f = ProcessStatusFilter::default();
    assert_eq!(f, ProcessStatusFilter::All);
    assert_eq!(f.next(), ProcessStatusFilter::Running);
    assert_eq!(f.next().next(), ProcessStatusFilter::Sleeping);
    assert_eq!(f.next().next().next(), ProcessStatusFilter::All);
    assert_eq!(ProcessStatusFilter::Running.label(Language::Spanish), "ejecutando");
    assert_eq!(ProcessStatusFilter::Sleeping.label(Language::English), "sleeping");
    assert_eq!(ProcessStatusFilter::All.label(Language::Spanish), "todos");
    assert!(ProcessStatusFilter::All.matches(ProcessStatus::Zombie));
    assert!(ProcessStatusFilter::Running.matches(ProcessStatus::Running));
    assert!(!ProcessStatusFilter::Running.matches(ProcessStatus::Sleeping));
    assert!(ProcessStatusFilter::Sleeping.matches(ProcessStatus::Sleeping));
}

#[test]
fn process_table_cursor_and_sorting() {
    let mut t = ProcessTableState::default();
    assert_eq!(t.sort_col, ProcessSortColumn::Cpu);
    assert!(!t.sort_asc);
    t.move_cursor(-1, 5);
    assert_eq!(t.cursor, 0);
    for _ in 0..25 {
        t.move_cursor(1, 50);
    }
    assert_eq!(t.cursor, 25);
    assert_eq!(t.scroll, 6);
    t.move_cursor(1, 0);
    assert_eq!(t.cursor, 25);
    t.move_cursor(1, 10);
    assert_eq!(t.cursor, 9);
    assert_eq!(t.scroll, 6);
    t.sort_by(ProcessSortColumn::Cpu);
    assert!(t.sort_asc);
    assert_eq!(t.cursor, 0);
    assert_eq!(t.scroll, 0);
    t.sort_by(ProcessSortColumn::Memory);
    assert_eq!(t.sort_col, ProcessSortColumn::Memory);
    assert!(!t.sort_asc);
}

#[test]
fn filter_counts_case_insensitively() {
    let names = vec!["Postgres".to_string(), "node".to_string(), "POSTGRES-worker".to_string()];
    assert_eq!(filtered_process_count(&names, ""), 3);
    assert_eq!(filtered_process_count(&names, "post"), 2);
    assert_eq!(filtered_process_count(&names, "NODE"), 1);
    assert_eq!(filtered_process_count(&names, "zzz"), 0);
}

#[test]
fn column_headers_show_direction() {
    assert_eq!(col_header("CPU%", true, true), "CPU% ▲");
    assert_eq!(col_header("CPU%", true, false), "CPU% ▼");
    assert_eq!(col_header("RAM", false, true), "RAM");
}

#[test]
fn confirm_actions_carry_the_container_id() {
    let a = ConfirmAction::Restart("abc".to_string());
    assert_eq!(a.clone(), ConfirmAction::Restart("abc".to_string()));
    assert_ne!(a, ConfirmAction::Stop("abc".to_string()));
}

#[test]
fn env_lines_sorted_and_hidden() {
    let env = vec!["PATH=/usr/bin".to_string(), "DB_PASSWORD=s3cret=x".to_string(), "FLAG".to_string()];
    assert_eq!(
        rtop::ui::views::container_detail::env_lines(&env, false),
        vec!["DB_PASSWORD=●●●●●●".to_string(), "FLAG".to_string(), "PATH=●●●●●●".to_string()]
    );
    assert_eq!(
        rtop::ui::views::container_detail::env_lines(&env, true),
        vec!["DB_PASSWORD=s3cret=x".to_string(), "FLAG".to_string(), "PATH=/usr/bin".to_string()]
    );
    assert!(rtop::ui::views::container_detail::env_lines(&vec![], false).is_empty());
}

#[test]
fn theme_palettes() {
    let light = rtop::ui::theme::Theme::get_theme(ThemeMode::Light);
    assert_eq!(light.ok, rtop::ui::theme::PaletteColor::Rgb(46, 125, 50));
    assert_eq!(light.bg, rtop::ui::theme::PaletteColor::Rgb(245, 245, 245));
    assert_eq!(light.selected_fg, rtop::ui::theme::PaletteColor::Rgb(255, 255, 255));
    let dark = rtop::ui::theme::Theme::get_theme(ThemeMode::Dark);
    assert_eq!(dark.bg, rtop::ui::theme::PaletteColor::Reset);
    assert_eq!(dark.crit, rtop::ui::theme::PaletteColor::Rgb(255, 180, 171));
    let mut m = ThemeMode::Dark;
    for _ in 0..8 {
        let t = rtop::ui::theme::Theme::get_theme(m);
        assert!(t.ok != t.warn && t.warn != t.crit && t.ok != t.crit);
        m = m.next();
    }
    assert_eq!(
        rtop::ui::theme::Theme::get_theme(ThemeMode::TokyoNight).selected_bg,
        rtop::ui::theme::PaletteColor::Rgb(51, 70, 124)
    );
}
