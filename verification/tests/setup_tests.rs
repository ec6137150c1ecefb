use rtop::config::Tab;
use rtop::setup::{
    benchmark_fits, benchmark_size_answer, default_disk_index, disk_answer, disk_capacity_answer, menu_choice,
    tab_answer, text_setting_answer, theme_answer, yes_no_answer, Answer, DiskOption,
};
use rtop::ui::theme::ThemeMode;

#[test]
fn yes_no_answers() {
    assert_eq!(yes_no_answer("", true), Some(true));
    assert_eq!(yes_no_answer("", false), Some(false));
    for yes in ["s", "S", "si", "Sí", "y", "YES"] {
        assert_eq!(yes_no_answer(yes, false), Some(true), "{yes}");
    }
    for no in ["n", "No", "NO"] {
        assert_eq!(yes_no_answer(no, true), Some(false), "{no}");
    }
    assert_eq!(yes_no_answer("quizá", true), None);
}

#[test]
fn benchmark_sizes() {
    assert_eq!(benchmark_size_answer(""), Some(256));
    assert_eq!(benchmark_size_answer("64"), Some(64));
    assert_eq!(benchmark_size_answer("+4096"), Some(4096));
    assert_eq!(benchmark_size_answer("63"), None);
    assert_eq!(benchmark_size_answer("4097"), None);
    assert_eq!(benchmark_size_answer("1e3"), None);
    assert!(benchmark_fits(256, 400_000_000));
    assert!(!benchmark_fits(256, 300_000_000));
    assert!(!benchmark_fits(64, 10));
    assert!(!benchmark_fits(u64::MAX, u64::MAX));
}

#[test]
fn setting_answers() {
    assert_eq!(disk_capacity_answer(""), Answer::Keep);
    assert_eq!(disk_capacity_answer("500"), Answer::Change(500));
    assert_eq!(disk_capacity_answer("0"), Answer::Invalid);
    assert_eq!(disk_capacity_answer("fast"), Answer::Invalid);
    assert_eq!(tab_answer(""), Answer::Keep);
    assert_eq!(tab_answer("Procesos"), Answer::Change(Tab::Processes));
    assert_eq!(tab_answer("containers"), Answer::Change(Tab::Containers));
    assert_eq!(tab_answer("RED"), Answer::Change(Tab::Network));
    assert_eq!(tab_answer("discos"), Answer::Invalid);
    assert_eq!(theme_answer("Nord"), Answer::Change(ThemeMode::Nord));
    assert_eq!(theme_answer("tokyo night"), Answer::Change(ThemeMode::TokyoNight));
    assert_eq!(theme_answer("TOKYO_NIGHT"), Answer::Change(ThemeMode::TokyoNight));
    assert_eq!(theme_answer(""), Answer::Keep);
    assert_eq!(theme_answer("solarized"), Answer::Invalid);
    assert_eq!(text_setting_answer(""), Answer::Keep);
    assert_eq!(text_setting_answer("-"), Answer::Change(None));
    assert_eq!(text_setting_answer("eth0"), Answer::Change(Some("eth0".to_string())));
}

#[test]
fn menu_entries() {
    assert_eq!(menu_choice(""), Some(0));
    assert_eq!(menu_choice("0"), Some(0));
    assert_eq!(menu_choice("1"), Some(1));
    assert_eq!(menu_choice("7"), Some(7));
    assert_eq!(menu_choice("8"), None);
    assert_eq!(menu_choice("10"), None);
}

#[test]
fn disk_offered_first_and_chosen() {
    let disks = vec![
        DiskOption { device_short: "sr0".to_string(), writable: false },
        DiskOption { device_short: "sda1".to_string(), writable: true },
        DiskOption { device_short: "nvme0n1p2".to_string(), writable: true },
    ];
    assert_eq!(default_disk_index(&disks, Some("nvme0n1p2")), 2);
    assert_eq!(default_disk_index(&disks, Some("sr0")), 1);
    assert_eq!(default_disk_index(&disks, None), 1);
    let read_only = vec![DiskOption { device_short: "sr0".to_string(), writable: false }];
    assert_eq!(default_disk_index(&read_only, None), 0);
    assert_eq!(disk_answer("", 3, 1), Some(1));
    assert_eq!(disk_answer("3", 3, 1), Some(2));
    assert_eq!(disk_answer("0", 3, 1), Some(0));
    assert_eq!(disk_answer("4", 3, 1), None);
    assert_eq!(disk_answer("x", 3, 1), None);
}
