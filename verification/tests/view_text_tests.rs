use rtop::collectors::containers::{mount_text, network_label, port_binding_text};
use rtop::collectors::database::extract_container_host_port;
use rtop::models::DatabaseType;
use rtop::ui::views::container_logs::{log_level, LogLevel};
use rtop::ui::views::main_view::{arch_label, best_disk_index, format_uptime as up_label};
use rtop::ui::views::process_detail::format_uptime;
use rtop::ui::views::swarm::truncate_image;

#[test]
fn uptime_texts() {
    assert_eq!(format_uptime(42), "42s");
    assert_eq!(format_uptime(125), "2m 5s");
    assert_eq!(format_uptime(3 * 3600 + 12 * 60 + 9), "3h 12m");
    assert_eq!(up_label(3 * 86400 + 4 * 3600 + 59), "up 3d 4h");
    assert_eq!(up_label(2 * 3600 + 5 * 60), "up 2h 5m");
    assert_eq!(up_label(7 * 60 + 30), "up 7m");
    assert_eq!(up_label(0), "up 0m");
}

#[test]
fn image_names_are_shortened() {
    assert_eq!(truncate_image("docker.io/library/nginx:1.25", 20), "nginx:1.25");
    assert_eq!(truncate_image("registry/averyveryverylongimagename:latest", 10), "averyve...");
    assert_eq!(truncate_image("abc", 2), "...");
    assert_eq!(truncate_image("ñandú", 7), "ñandú");
    assert_eq!(truncate_image("ñandúes", 7), "ñan...");
}

#[test]
fn log_levels() {
    assert_eq!(log_level("ERROR: disk full"), LogLevel::Error);
    assert_eq!(log_level("thread panicked"), LogLevel::Error);
    assert_eq!(log_level("Warning: slow"), LogLevel::Warning);
    assert_eq!(log_level("[INFO] ready"), LogLevel::Info);
    assert_eq!(log_level("hello"), LogLevel::Plain);
}

#[test]
fn architecture_labels() {
    assert_eq!(arch_label("aarch64"), "ARM64");
    assert_eq!(arch_label("arm"), "ARM");
    assert_eq!(arch_label("x86_64"), "x86_64");
}

#[test]
fn disk_shown_by_default() {
    let devices = vec!["overlay".to_string(), "/dev/loop0".to_string(), "/dev/sda1".to_string(), "/dev/nvme0n1p1".to_string()];
    let totals = vec![10, 10, 10, 10];
    assert_eq!(best_disk_index(&devices, &totals, Some("nvme0n1p1")), Some(3));
    assert_eq!(best_disk_index(&devices, &totals, Some("missing")), Some(2));
    assert_eq!(best_disk_index(&devices, &totals, None), Some(2));
    assert_eq!(best_disk_index(&devices, &vec![10, 10, 0, 0], None), Some(0));
    assert_eq!(best_disk_index(&vec![], &vec![], None), None);
}

#[test]
fn inspected_lists() {
    assert_eq!(port_binding_text(Some("127.0.0.1"), Some("5433"), "5432/tcp"), "127.0.0.1:5433->5432/tcp");
    assert_eq!(port_binding_text(None, None, "80/tcp"), "0.0.0.0:?->80/tcp");
    assert_eq!(mount_text(Some("/srv"), Some("/data"), None), "/srv:/data (rw)");
    assert_eq!(mount_text(None, Some("/data"), Some(false)), "?:/data (ro)");
    assert_eq!(network_label("bridge", Some("172.17.0.2")), "bridge (172.17.0.2)");
    assert_eq!(network_label("none", None), "none (—)");
}

#[test]
fn listed_bindings_read_back() {
    let ports = vec![port_binding_text(Some("0.0.0.0"), Some("15432"), "5432/tcp")];
    assert_eq!(extract_container_host_port(&ports, DatabaseType::PostgreSQL), 15432);
}
