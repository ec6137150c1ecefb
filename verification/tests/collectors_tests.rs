use rtop::collectors::broker::{
    apply_broker_samples, extract_broker_port, extract_container_host_port as broker_host_port, metric_samples,
    BrokerCounters, BrokerSample,
};
use rtop::collectors::containers::{
    counter_deltas, display_name, eq_ignore_ascii_case_exec, map_status, reading_totals, status_from_text, BlkioEntry,
    ContainerDeltas, ContainerReading, ContainerTotals,
};
use rtop::collectors::cpu_times::{parse_proc_stat, tick_deltas, CpuTimesCollector};
use rtop::collectors::disk::{
    build_selector_entries, device_short_name, diskstats_names, parse_diskstats, parse_proc_io, DiskIoCollector,
    MountedDisk, ProcIoRead,
};
use rtop::collectors::network::{autodetect_nic, interface_for, interfaces, is_docker, is_loopback, parse_netdev_errors};
use rtop::collectors::process_net::{
    build_inode_pid_map, collect_all, diag_reply_traffic, read_u64, read_uint, socket_inode, ByteOrder, ProcessNetCollector,
    ProcessNetSnapshot,
};
use rtop::collectors::psi::{parse_psi, psi_readings, PsiCollector};
use rtop::collectors::swarm::{
    capitalize, decode_chunked, node_data, service_data, service_order, short_id, strip_image_digest, swarm_gate,
    swarm_listing, unix_response_body, EngineState, NodeReport, ServiceReport,
};
use rtop::collectors::system::{
    core_type_from, detect_services, is_cpu_sensor, millidegrees, temperature_input_name, temperature_paths,
};
use rtop::collectors::tcp_stats::{parse_snmp_block, snmp_lookup, TcpStatsCollector};
use rtop::models::{CoreType, DatabaseType, HttpProxyType, MessageBrokerType, NodeRuntimeType};
use rtop::models::container::ContainerStatus;

#[test]
fn psi_file_parsing() {
    let text = "some avg10=1.23 avg60=4.56 avg300=7.89 total=123456\nfull avg10=2.34 avg60=5.67 avg300=8.90 total=555\n";
    let f = parse_psi(text);
    let some = f.some.as_ref().unwrap();
    assert_eq!(some.avg10, "1.23");
    assert_eq!(some.avg60, "4.56");
    assert_eq!(some.avg300, "7.89");
    assert_eq!(some.total, 123456);
    let full = f.full.as_ref().unwrap();
    assert_eq!(full.avg300, "8.90");
    assert_eq!(full.total, 555);
    let cpu = parse_psi("some avg10=0.00 total=x\nbogus line\n\n");
    assert_eq!(cpu.some.as_ref().unwrap().total, 0);
    assert_eq!(cpu.some.as_ref().unwrap().avg60, "");
    assert!(cpu.full.is_none());
}

#[test]
fn psi_readings_need_every_line() {
    let mem = "some avg10=0.01 total=999\nfull avg10=2.34 total=555\n";
    let all = psi_readings(Some(parse_psi("some total=1\n")), Some(parse_psi(mem)), Some(parse_psi(mem)));
    let r = all.unwrap();
    assert_eq!(r.cpu_some.total, 1);
    assert_eq!(r.memory_full.total, 555);
    assert_eq!(r.io_some.avg10, "0.01");
    assert!(psi_readings(Some(parse_psi("some total=1\n")), None, Some(parse_psi(mem))).is_none());
    assert!(psi_readings(Some(parse_psi("full total=1\n")), Some(parse_psi(mem)), Some(parse_psi(mem))).is_none());
    assert_eq!(PsiCollector::new().base_path, "/proc/pressure");
    assert_eq!(PsiCollector::with_base_path("target/x".to_string()).base_path, "target/x");
}

#[test]
fn process_net_deltas() {
    let mut c = ProcessNetCollector::new();
    let t0 = std::time::Instant::now();
    let first = vec![(10u32, ProcessNetSnapshot { rx_bytes: 100, tx_bytes: 50 })];
    let (changes, _) = c.record(&first, t0);
    assert_eq!(changes.len(), 1);
    assert_eq!(changes[0].rx_total, 100);
    assert!(changes[0].increase.is_none());
    let second = vec![
        (10u32, ProcessNetSnapshot { rx_bytes: 160, tx_bytes: 40 }),
        (11u32, ProcessNetSnapshot { rx_bytes: 5, tx_bytes: 5 }),
    ];
    let (changes, prev_time) = c.record(&second, t0);
    assert_eq!(prev_time, t0);
    assert_eq!(changes[0].increase, Some((60, 0)));
    assert!(changes[1].increase.is_none());
    assert_eq!(c.prev.len(), 2);
}

#[test]
fn socket_links_and_counters() {
    assert_eq!(socket_inode("socket:[12345]"), Some(12345));
    assert_eq!(socket_inode("socket:[]"), None);
    assert_eq!(socket_inode("pipe:[12]"), None);
    assert_eq!(socket_inode("/dev/null"), None);
    let buf: Vec<u8> = (0u8..32).collect();
    assert_eq!(read_u64(&buf, 4, 8, 16, ByteOrder::Little), Some(u64::from_le_bytes([12, 13, 14, 15, 16, 17, 18, 19])));
    assert_eq!(read_u64(&buf, 4, 8, 16, ByteOrder::Big), Some(u64::from_be_bytes([12, 13, 14, 15, 16, 17, 18, 19])));
    assert!(read_u64(&buf, 4, 12, 16, ByteOrder::Little).is_none());
    assert!(read_u64(&buf, 20, 8, 100, ByteOrder::Little).is_none());
    assert!(read_u64(&buf, usize::MAX, 8, 100, ByteOrder::Little).is_none());
    assert_eq!(read_uint(&[0x34, 0x12], 0, 2, ByteOrder::Little), 0x1234);
    assert_eq!(read_uint(&[0x34, 0x12], 0, 2, ByteOrder::Big), 0x3412);
    assert_eq!(read_uint(&[9, 1, 0, 0, 0], 1, 4, ByteOrder::Little), 1);
    assert_eq!(read_uint(&[], 0, 0, ByteOrder::Big), 0);
}

#[test]
fn disk_names_and_counters() {
    assert_eq!(device_short_name("/dev/nvme0n1p1"), "nvme0n1p1");
    assert_eq!(device_short_name("overlay"), "overlay");
    let stats = "   8       0 sda 100 0 2048 10 50 0 4096 20 0 0 0\n   7       0 loop0 1 0 2 0 0 0 0 0 0 0 0\n 259 0 nvme0n1 1 0 8 0 1 0 16 0 0 0 0\n";
    let rows = parse_diskstats(stats);
    assert_eq!(rows.len(), 3);
    assert_eq!(rows[0].name, "sda");
    assert_eq!(rows[0].sectors_read, 2048);
    assert_eq!(rows[0].sectors_written, 4096);
    assert_eq!(diskstats_names(stats), vec!["nvme0n1".to_string(), "sda".to_string()]);
    assert_eq!(parse_proc_io("rchar: 1\nread_bytes: 4096\nwrite_bytes: 8192\n"), (4096, 8192));
}

#[test]
fn selector_entries_are_merged_and_sorted() {
    let known = vec![
        MountedDisk { device: "/dev/sdb1".to_string(), mount_point: "/data".to_string(), total_bytes: 10 },
        MountedDisk { device: "/dev/nvme0n1p1".to_string(), mount_point: "/".to_string(), total_bytes: 20 },
    ];
    let names = vec!["nvme0n1p1".to_string(), "sda".to_string()];
    let sizes = vec![1, 512];
    let e = build_selector_entries(&known, &names, &sizes);
    let shorts: Vec<&str> = e.iter().map(|x| x.device_short.as_str()).collect();
    assert_eq!(shorts, vec!["nvme0n1p1", "sda", "sdb1"]);
    assert_eq!(e[0].mount_point, "/");
    assert_eq!(e[1].device_full, "/dev/sda");
    assert_eq!(e[1].mount_point, "");
    assert_eq!(e[1].total_bytes, 512);
    assert_eq!(e[2].total_bytes, 10);
}

#[test]
fn process_io_changes_and_cleanup() {
    let mut c = DiskIoCollector::new();
    let t = std::time::Instant::now();
    let (ch, denied) = c.process_io_rates(
        &[1, 2, 3],
        vec![
            ProcIoRead::Content("read_bytes: 100\nwrite_bytes: 10\n".to_string()),
            ProcIoRead::PermissionDenied,
            ProcIoRead::Failed,
        ],
        t,
    );
    assert!(denied);
    assert_eq!(ch.len(), 1);
    assert!(ch[0].increase.is_none());
    let (ch, denied) = c.process_io_rates(
        &[1],
        vec![ProcIoRead::Content("read_bytes: 150\nwrite_bytes: 5\n".to_string())],
        t,
    );
    assert!(!denied);
    let (dr, dw, _) = ch[0].increase.unwrap();
    assert_eq!((dr, dw), (50, 0));
    let (_, _) = c.process_io_rates(&[2], vec![ProcIoRead::Failed], t);
    assert!(c.proc_prev.is_empty());
}

#[test]
fn network_interfaces() {
    assert!(is_docker("docker0"));
    assert!(is_docker("veth12ab"));
    assert!(is_docker("br-1234"));
    assert!(!is_docker("eth0"));
    assert!(is_loopback("lo"));
    assert!(is_loopback("lo0"));
    assert!(!is_loopback("eth0"));
    let i = interface_for("lo");
    assert!(i.is_loopback && !i.is_up);
    let list = interfaces(&vec!["wlan0".to_string(), "eth0".to_string(), "lo".to_string()]);
    let names: Vec<&str> = list.iter().map(|n| n.name.as_str()).collect();
    assert_eq!(names, vec!["eth0", "lo", "wlan0"]);
    assert!(list[0].is_up);
    assert_eq!(
        autodetect_nic(&["wlan0".to_string(), "docker0".to_string(), "eth0".to_string(), "lo".to_string()]),
        Some("eth0".to_string())
    );
    assert_eq!(autodetect_nic(&["lo".to_string()]), None);
    let dev = "Inter-|   Receive\n face |bytes\n  eth0: 100 2 3 4 0 0 0 0 200 5 6 7 0 0 0 0\n";
    let errs = parse_netdev_errors(dev);
    assert_eq!(errs.len(), 1);
    assert_eq!(errs[0].iface, "eth0");
    assert_eq!(errs[0].rx_errors, 3);
    assert_eq!(errs[0].tx_errors, 6);
}

#[test]
fn swarm_text_helpers() {
    assert_eq!(capitalize("active"), "Active");
    assert_eq!(capitalize(""), "");
    assert_eq!(strip_image_digest("nginx:1.25@sha256:abcd"), "nginx:1.25");
    assert_eq!(strip_image_digest("redis"), "redis");
    assert_eq!(short_id("0123456789abcdef"), "0123456789ab");
    assert_eq!(short_id("abc"), "abc");
    assert_eq!(decode_chunked(b"4\r\nWiki\r\n5\r\npedia\r\n0\r\n\r\n"), Some(b"Wikipedia".to_vec()));
}

#[test]
fn container_states_and_names() {
    assert_eq!(status_from_text("running"), ContainerStatus::Running);
    assert_eq!(map_status("Exited", "Exited (0) 2 hours ago"), ContainerStatus::Exited);
    assert_eq!(map_status("", "Up 2 hours (Paused)"), ContainerStatus::Paused);
    assert_eq!(map_status("created", ""), ContainerStatus::Unknown);
    assert_eq!(display_name("/web"), "web");
    assert_eq!(display_name("web"), "web");
}

#[test]
fn service_detection() {
    let s = detect_services("postgres", "/usr/lib/postgresql/bin/postgres", "postgres -D /data");
    assert_eq!(s.database_type, Some(DatabaseType::PostgreSQL));
    let n = detect_services("Nginx", "/usr/sbin/nginx", "nginx: master");
    assert_eq!(n.proxy_type, Some(HttpProxyType::Nginx));
    let b = detect_services("bun", "/home/u/.bun/bin/bun", "bun run");
    assert_eq!(b.node_runtime_type, Some(NodeRuntimeType::Bun));
    let k = detect_services("java", "/usr/bin/java", "java -cp kafka.Kafka");
    assert_eq!(k.message_broker_type, Some(MessageBrokerType::Kafka));
}

#[test]
fn core_types() {
    assert_eq!(core_type_from(0, 8, "apple", "apple m1", 0), CoreType::Performance);
    assert_eq!(core_type_from(5, 8, "apple", "apple m1", 0), CoreType::Efficiency);
    assert_eq!(core_type_from(1, 4, "", "apple", 0), CoreType::Standard);
    assert_eq!(core_type_from(5, 16, "genuineintel", "12th gen core", 4), CoreType::Efficiency);
    assert_eq!(core_type_from(3, 16, "genuineintel", "12th gen core", 4), CoreType::Performance);
    assert_eq!(core_type_from(3, 8, "genuineintel", "12th gen core", 4), CoreType::Standard);
    assert_eq!(core_type_from(0, 4, "arm", "cortex", 0), CoreType::Unknown);
    assert_eq!(core_type_from(3, 16, "authenticamd", "ryzen", 4), CoreType::Standard);
}

#[test]
fn cpu_tick_deltas() {
    let a = parse_proc_stat("cpu  10 2 5 100 1 0 0 0\ncpu0 1 1 1 1 1 1 1 1\nctxt 500\nintr 40 1 2\n");
    assert_eq!(a.user, 10);
    assert_eq!(a.system, 5);
    assert_eq!(a.ctx_switches, 500);
    assert_eq!(a.interrupts, 40);
    let b = parse_proc_stat("cpu  20 2 8 150 1 1 1 0\nctxt 560\nintr 50\n");
    let d = tick_deltas(&a, &b);
    assert_eq!(d.user, 10);
    assert_eq!(d.system, 5);
    assert_eq!(d.total, 65);
    assert_eq!(d.ctx_switches, 60);
    let mut c = CpuTimesCollector::new();
    let t = std::time::Instant::now();
    assert!(c.record(a, t).is_none());
    assert_eq!(c.record(b, t).unwrap().0, a);
}

#[test]
fn tcp_snmp_counters() {
    let snmp = "Ip: Forwarding DefaultTTL\nIp: 1 64\nTcp: RtoAlgorithm OutSegs RetransSegs\nTcp: 1 1000 7\n";
    let e = parse_snmp_block(snmp);
    assert_eq!(snmp_lookup(&e, "Tcp/RetransSegs"), Some(7));
    assert_eq!(snmp_lookup(&e, "Tcp/OutSegs"), Some(1000));
    assert_eq!(snmp_lookup(&e, "Tcp/Missing"), None);
    let mut c = TcpStatsCollector::new();
    assert_eq!(c.record(7, 1000), None);
    assert_eq!(c.record(9, 900), Some((2, 0)));
}

#[test]
fn broker_ports() {
    assert_eq!(extract_broker_port("redpanda start --kafka-addr 0.0.0.0:19092", MessageBrokerType::Redpanda), 9644);
    assert_eq!(extract_broker_port("redpanda start -p 19644", MessageBrokerType::Redpanda), 19644);
    assert_eq!(extract_broker_port("kafka-server-start.sh", MessageBrokerType::Kafka), 9404);
    let ports = vec!["0.0.0.0:29092->9092/tcp".to_string(), "0.0.0.0:19404->9404/tcp".to_string()];
    assert_eq!(broker_host_port(&ports, MessageBrokerType::Kafka), 19404);
    assert_eq!(broker_host_port(&ports, MessageBrokerType::Redpanda), 9644);
}

fn reading(cpu: u64, sys: Option<u64>, nets: Vec<(u64, u64)>, blk: Option<Vec<(&str, u64)>>) -> ContainerReading {
    ContainerReading {
        cpu_total: cpu,
        system_cpu: sys,
        memory_usage: Some(50000),
        memory_limit: Some(100000),
        networks: nets,
        blkio: blk.map(|es| es.into_iter().map(|(op, value)| BlkioEntry { op: op.to_string(), value }).collect()),
    }
}

#[test]
fn container_totals_sum_networks_and_block_io() {
    let r = reading(1000, Some(5000), vec![(100, 200), (50, 5)], Some(vec![("Read", 300), ("write", 400), ("READ", 1), ("Sync", 9)]));
    let t = reading_totals(&r);
    assert_eq!(
        t,
        ContainerTotals {
            memory_bytes: 50000,
            memory_limit_bytes: 100000,
            cpu_total: 1000,
            system_cpu: 5000,
            net_recv: 150,
            net_sent: 205,
            blk_read: 301,
            blk_write: 400,
        }
    );
    let empty = reading_totals(&ContainerReading {
        cpu_total: 7,
        system_cpu: None,
        memory_usage: None,
        memory_limit: None,
        networks: vec![],
        blkio: None,
    });
    assert_eq!(
        empty,
        ContainerTotals {
            memory_bytes: 0,
            memory_limit_bytes: 0,
            cpu_total: 7,
            system_cpu: 0,
            net_recv: 0,
            net_sent: 0,
            blk_read: 0,
            blk_write: 0,
        }
    );
}

#[test]
fn container_totals_hold_at_the_largest_count() {
    let t = reading_totals(&reading(0, Some(0), vec![(u64::MAX, 1), (5, 2)], Some(vec![("Write", u64::MAX), ("write", 3)])));
    assert_eq!(t.net_recv, u64::MAX);
    assert_eq!(t.net_sent, 3);
    assert_eq!(t.blk_write, u64::MAX);
    assert_eq!(t.blk_read, 0);
}

#[test]
fn container_deltas_need_a_previous_reading() {
    let first = reading_totals(&reading(1000, Some(5000), vec![(100, 200)], Some(vec![("Read", 300), ("Write", 400)])));
    assert_eq!(counter_deltas(None, &first), None);
    let second = reading_totals(&reading(1200, Some(6000), vec![(300, 600)], Some(vec![("Read", 500), ("Write", 1200)])));
    let d = counter_deltas(Some(&first), &second).unwrap();
    assert_eq!(
        d,
        ContainerDeltas { cpu: 200, system_cpu: 1000, net_recv: 200, net_sent: 400, blk_read: 200, blk_write: 800 }
    );
    // a counter that went back (a restarted container) counts as not having moved
    let back = counter_deltas(Some(&second), &first).unwrap();
    assert_eq!(back.cpu, 0);
    assert_eq!(back.net_recv, 0);
}

#[test]
fn ascii_case_is_ignored_only_for_ascii_letters() {
    let v = |s: &str| s.chars().collect::<Vec<char>>();
    assert!(eq_ignore_ascii_case_exec(&v("ReAd"), &v("read")));
    assert!(!eq_ignore_ascii_case_exec(&v("read"), &v("reads")));
    assert!(!eq_ignore_ascii_case_exec(&v("É"), &v("é")));
    assert!(eq_ignore_ascii_case_exec(&v("[@"), &v("[@")));
    assert!(!eq_ignore_ascii_case_exec(&v("@"), &v("`")));
}

/// A netlink message of type `typ` with `payload`, little-endian.
fn nl_message(typ: u16, payload: &[u8]) -> Vec<u8> {
    let len = (16 + payload.len()) as u32;
    let mut m = Vec::new();
    m.extend_from_slice(&len.to_le_bytes());
    m.extend_from_slice(&typ.to_le_bytes());
    m.extend_from_slice(&[0u8; 10]);
    m.extend_from_slice(payload);
    while m.len() % 4 != 0 {
        m.push(0);
    }
    m
}

/// A socket diagnostics reply for socket `inode` whose tcp_info block
/// holds `acked` and `received`, or is `info_len` bytes long.
fn diag_reply(inode: u32, acked: u64, received: u64, info_len: usize) -> Vec<u8> {
    let mut p = vec![0u8; 72];
    p[68..72].copy_from_slice(&inode.to_le_bytes());
    let mut info = vec![0u8; info_len];
    if info_len >= 128 {
        info[120..128].copy_from_slice(&acked.to_le_bytes());
    }
    if info_len >= 136 {
        info[128..136].copy_from_slice(&received.to_le_bytes());
    }
    // an unrelated attribute first, then the tcp_info block
    p.extend_from_slice(&6u16.to_le_bytes());
    p.extend_from_slice(&1u16.to_le_bytes());
    p.extend_from_slice(&[7, 7, 0, 0]);
    p.extend_from_slice(&((4 + info_len) as u16).to_le_bytes());
    p.extend_from_slice(&2u16.to_le_bytes());
    p.extend_from_slice(&info);
    nl_message(20, &p)
}

#[test]
fn diag_replies_give_each_sockets_counters() {
    let mut buf = diag_reply(77, 500, 900, 232);
    buf.extend(diag_reply(78, 5, 0, 128));
    buf.extend(diag_reply(79, 5, 6, 64));
    let n = buf.len();
    buf.extend(nl_message(3, &[0, 0, 0, 0]));
    let (t, done) = diag_reply_traffic(&buf, n, ByteOrder::Little);
    assert_eq!(t, vec![(77, 900, 500), (78, 0, 5)]);
    assert!(!done);
    let (t2, done2) = diag_reply_traffic(&buf, buf.len(), ByteOrder::Little);
    assert_eq!(t2, t);
    assert!(done2);
}

#[test]
fn diag_reply_walk_stops_at_a_broken_message() {
    let mut buf = diag_reply(1, 10, 20, 136);
    let mut bad = nl_message(20, &[0u8; 8]);
    bad[0] = 8; // shorter than its own header
    buf.extend(bad);
    buf.extend(diag_reply(2, 30, 40, 136));
    let (t, done) = diag_reply_traffic(&buf, buf.len(), ByteOrder::Little);
    assert_eq!(t, vec![(1, 20, 10)]);
    assert!(!done);
    // a message claiming more bytes than were received
    let (t3, _) = diag_reply_traffic(&buf, 40, ByteOrder::Little);
    assert!(t3.is_empty());
}

#[test]
fn sockets_belong_to_the_first_process_listed() {
    let links = vec![
        (10u32, "socket:[5]".to_string()),
        (10, "/dev/null".to_string()),
        (11, "socket:[6]".to_string()),
        (11, "socket:[5]".to_string()),
    ];
    let owners = build_inode_pid_map(&links);
    assert_eq!(owners.len(), 2);
    assert_eq!(owners.get(&5), Some(&10));
    assert_eq!(owners.get(&6), Some(&11));
}

#[test]
fn per_process_traffic_adds_up_each_processes_sockets() {
    let links = vec![(10u32, "socket:[5]".to_string()), (10, "socket:[7]".to_string()), (11, "socket:[6]".to_string())];
    let owners = build_inode_pid_map(&links);
    let traffic = vec![(5u64, 100u64, 10u64), (6, 1, 2), (7, 50, 5), (99, 1000, 1000)];
    let r = collect_all(&vec![10, 11, 12], &owners, &traffic);
    assert_eq!(r.len(), 3);
    assert_eq!(r[&10], ProcessNetSnapshot { rx_bytes: 150, tx_bytes: 15 });
    assert_eq!(r[&11], ProcessNetSnapshot { rx_bytes: 1, tx_bytes: 2 });
    assert_eq!(r[&12], ProcessNetSnapshot { rx_bytes: 0, tx_bytes: 0 });
    let none = collect_all(&vec![10], &build_inode_pid_map(&vec![]), &traffic);
    assert!(none.is_empty());
}

#[test]
fn swarm_rows_from_engine_reports() {
    let svc = service_data(&ServiceReport {
        id: Some("svc1".to_string()),
        name: Some("web".to_string()),
        image: Some("nginx:1.25@sha256:abc".to_string()),
        running_tasks: Some(2),
        desired_tasks: None,
        replicas: Some(3),
    });
    assert_eq!((svc.id.as_str(), svc.name.as_str(), svc.image.as_str()), ("svc1", "web", "nginx:1.25"));
    assert_eq!((svc.replicas_running, svc.replicas_desired, svc.restart_count), (2, 3, 0));
    let bare = service_data(&ServiceReport { id: None, name: None, image: None, running_tasks: None, desired_tasks: None, replicas: None });
    assert_eq!((bare.name.as_str(), bare.replicas_running, bare.replicas_desired), ("", 0, 0));
    let node = node_data(&NodeReport {
        id: Some("abcdefghijklmnopqrstuvwxyz".to_string()),
        hostname: Some("srv1".to_string()),
        state: Some("ready".to_string()),
        role: None,
        availability: Some("drain".to_string()),
    });
    assert_eq!(
        (node.id.as_str(), node.hostname.as_str(), node.status.as_str(), node.role.as_str(), node.availability.as_str()),
        ("abcdefghijkl", "srv1", "Ready", "Worker", "Drain")
    );
    let unknown = node_data(&NodeReport { id: None, hostname: None, state: None, role: None, availability: None });
    assert_eq!((unknown.status.as_str(), unknown.availability.as_str()), ("Unknown", "Active"));
}

#[test]
fn swarm_services_are_listed_by_name() {
    let mk = |n: &str| service_data(&ServiceReport { id: None, name: Some(n.to_string()), image: None, running_tasks: None, desired_tasks: None, replicas: None });
    let services = vec![mk("web"), mk("api"), mk("db"), mk("api")];
    assert_eq!(service_order(&services), vec![1, 3, 2, 0]);
}

#[test]
fn swarm_panel_states() {
    let d = swarm_gate(&EngineState::Unreachable).unwrap();
    assert!(!d.available && !d.is_manager);
    assert_eq!(d.message.as_deref(), Some("Docker no disponible"));
    let e = swarm_gate(&EngineState::InfoFailed("timeout".to_string())).unwrap();
    assert_eq!(e.message.as_deref(), Some("Error de Docker: timeout"));
    let w = swarm_gate(&EngineState::Answered { active: true, manager: false }).unwrap();
    assert!(w.available && !w.is_manager);
    assert_eq!(w.message.as_deref(), Some("Este nodo no es Swarm Manager"));
    assert!(swarm_gate(&EngineState::Answered { active: false, manager: true }).is_some());
    assert!(swarm_gate(&EngineState::Answered { active: true, manager: true }).is_none());
    let ok = swarm_listing(Ok((vec![], vec![])));
    assert!(ok.available && ok.is_manager && ok.message.is_none());
    let err = swarm_listing(Err("denied".to_string()));
    assert_eq!(err.message.as_deref(), Some("Error listando servicios: denied"));
}

#[test]
fn engine_socket_response_bodies() {
    let plain = b"HTTP/1.1 200 OK\r\nContent-Type: application/json\r\n\r\n[1,2]";
    assert_eq!(unix_response_body(plain), Some(b"[1,2]".to_vec()));
    let chunked = b"HTTP/1.1 200 OK\r\nTransfer-Encoding: Chunked\r\n\r\n3\r\nabc\r\n2\r\nde\r\n0\r\n\r\n";
    assert_eq!(unix_response_body(chunked), Some(b"abcde".to_vec()));
    assert_eq!(unix_response_body(b"HTTP/1.1 200 OK\r\n"), None);
    assert_eq!(unix_response_body(b"\xff\xfe\r\n\r\nbody"), None);
    assert_eq!(unix_response_body(b"\r\n\r\n"), Some(vec![]));
}

fn broker_samples_of(body: &str) -> Vec<BrokerSample> {
    metric_samples(body)
        .into_iter()
        .map(|(key, text)| {
            let v: f64 = text.parse().unwrap_or(0.0);
            BrokerSample { key, as_u64: v as u64, as_u32: v as u32 }
        })
        .collect()
}

#[test]
fn prometheus_lines_split_into_name_and_value() {
    let body = "# HELP x\n\n  redpanda_cluster_topics{shard=\"0\"}  12  \nkafka_consumergroup_lag 40 1700000000\nlonely\nbroken{a=\"b\" 3\n";
    let s = metric_samples(body);
    assert_eq!(
        s,
        vec![
            ("redpanda_cluster_topics".to_string(), "12".to_string()),
            ("kafka_consumergroup_lag".to_string(), "40".to_string()),
            ("broken{a=\"b\"".to_string(), "3".to_string()),
        ]
    );
}

#[test]
fn broker_counters_from_a_metrics_page() {
    let body = "redpanda_cluster_topics 12\nredpanda_cluster_partitions{x=\"1\"} 48\nredpanda_kafka_consumer_groups 3\n\
redpanda_kafka_max_consumer_lag 90\nredpanda_kafka_consumer_group_lag 40\nredpanda_under_replicated_partition 2\n\
redpanda_kafka_request_tx_bytes_total 777\nredpanda_kafka_request_bytes_total 1000.9\nredpanda_kafka_request_tx_bytes_total 5\n\
kafka_server_brokertopicmetrics_messagesin_total 55\nunrelated_metric 1\n";
    let mut c = BrokerCounters::default();
    apply_broker_samples(&broker_samples_of(body), &mut c);
    assert_eq!(
        c,
        BrokerCounters {
            under_replicated_partitions: 2,
            consumer_lag: 90,
            active_topics: 12,
            active_partitions: 48,
            active_consumers: 3,
            raw_messages_total: 55,
            raw_bytes_total: 1000,
        }
    );
    let mut neg = BrokerCounters::default();
    apply_broker_samples(&broker_samples_of("kafka_controller_KafkaController_GlobalTopicCount -5\nkafka_consumer_group_lag nope\n"), &mut neg);
    assert_eq!(neg.active_topics, 0);
    assert_eq!(neg.consumer_lag, 0);
}

#[test]
fn core_temperature_sources() {
    assert_eq!(
        temperature_paths(5),
        vec![
            "/sys/class/thermal/thermal_zone5/temp".to_string(),
            "/sys/class/hwmon/hwmon2/temp2_input".to_string(),
            "/sys/devices/platform/coretemp.5/hwmon/hwmon*/temp6_input".to_string(),
        ]
    );
    assert_eq!(temperature_paths(0)[1], "/sys/class/hwmon/hwmon1/temp1_input");
    assert_eq!(temperature_input_name(11), "temp12_input");
    assert!(is_cpu_sensor("coretemp\n"));
    assert!(is_cpu_sensor("k10temp"));
    assert!(is_cpu_sensor(" zenpower "));
    assert!(!is_cpu_sensor("nvme"));
    assert_eq!(millidegrees("45000\n"), Some(45000));
    assert_eq!(millidegrees(" -1500 "), Some(-1500));
    assert_eq!(millidegrees("+20"), Some(20));
    assert_eq!(millidegrees("-9223372036854775808"), Some(i64::MIN));
    assert_eq!(millidegrees("9223372036854775808"), None);
    assert_eq!(millidegrees("-+5"), None);
    assert_eq!(millidegrees("-"), None);
    assert_eq!(millidegrees(""), None);
}

/// CPU share and rates the way the program derives them from two readings
/// taken `secs` apart.
fn derived(d: Option<ContainerDeltas>, online_cpus: f64, secs: f64) -> (f64, f64, f64, f64, f64) {
    match d {
        None => (0.0, 0.0, 0.0, 0.0, 0.0),
        Some(d) => {
            let cpu = if d.cpu > 0 && d.system_cpu > 0 {
                (d.cpu as f64 / d.system_cpu as f64) * online_cpus * 100.0
            } else {
                0.0
            };
            let secs = secs.max(0.001);
            (
                cpu,
                d.net_recv as f64 / secs,
                d.net_sent as f64 / secs,
                d.blk_read as f64 / secs,
                d.blk_write as f64 / secs,
            )
        }
    }
}

#[test]
fn test_derive_metrics_first_snapshot() {
    let totals = reading_totals(&reading(1000, Some(5000), vec![(100, 200)], Some(vec![("Read", 300), ("Write", 400)])));
    let res = derived(counter_deltas(None, &totals), 2.0, 2.0);
    assert_eq!(res.0, 0.0);
    assert_eq!(totals.memory_bytes, 50000);
    assert_eq!(totals.memory_limit_bytes, 100000);
    assert_eq!(res.1, 0.0);
    assert_eq!(totals.net_recv, 100);
    assert_eq!(res.2, 0.0);
    assert_eq!(totals.net_sent, 200);
    assert_eq!(res.3, 0.0);
    assert_eq!(totals.blk_read, 300);
    assert_eq!(res.4, 0.0);
    assert_eq!(totals.blk_write, 400);
}

#[test]
fn test_derive_metrics_second_snapshot() {
    let prev = ContainerTotals {
        memory_bytes: 50000,
        memory_limit_bytes: 100000,
        cpu_total: 1000,
        system_cpu: 5000,
        net_recv: 100,
        net_sent: 200,
        blk_read: 300,
        blk_write: 400,
    };
    let totals = reading_totals(&reading(1200, Some(6000), vec![(300, 600)], Some(vec![("Read", 500), ("Write", 1200)])));
    let res = derived(counter_deltas(Some(&prev), &totals), 2.0, 2.0);
    assert!((res.0 - 40.0).abs() < 1.0);
    assert_eq!(totals.memory_bytes, 50000);
    assert_eq!(totals.memory_limit_bytes, 100000);
    assert!((res.1 - 100.0).abs() < 5.0);
    assert_eq!(totals.net_recv, 300);
    assert!((res.2 - 200.0).abs() < 5.0);
    assert_eq!(totals.net_sent, 600);
    assert!((res.3 - 100.0).abs() < 5.0);
    assert_eq!(totals.blk_read, 500);
    assert!((res.4 - 400.0).abs() < 5.0);
    assert_eq!(totals.blk_write, 1200);
}
