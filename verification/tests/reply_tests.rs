use rtop::collectors::cpu_times::{tick_deltas, tick_deltas_checked, ProcStatSample};
use rtop::collectors::database::{parse_innodb_buffer_words, parse_innodb_hit_rate_words};
use rtop::collectors::disk::block_size_of;
use rtop::collectors::node_runtime::{heap_of_reply, heap_spaces_of_reply, inspector_ws_url_of, HeapSpaces};
use rtop::collectors::swarm::nodes_of_reply;

/// An unmasked server text frame carrying `payload`.
fn server_frame(payload: &str) -> Vec<u8> {
    let b = payload.as_bytes();
    let mut f = vec![0x81u8];
    if b.len() < 126 {
        f.push(b.len() as u8);
    } else {
        f.push(126);
        f.push((b.len() >> 8) as u8);
        f.push((b.len() & 0xff) as u8);
    }
    f.extend_from_slice(b);
    f
}

/// An evaluation reply whose value is the JSON text `value`.
fn eval_reply(value: &str) -> String {
    let escaped = value.replace('\\', "\\\\").replace('"', "\\\"");
    format!("{{\"id\":1,\"result\":{{\"result\":{{\"type\":\"string\",\"value\":\"{}\"}}}}}}", escaped)
}

#[test]
fn heap_reply_reads_used_and_total() {
    let f = server_frame(&eval_reply("{\"heapUsed\":1048576,\"heapTotal\":4194304,\"rss\":9,\"external\":3,\"elu\":0.25}"));
    assert_eq!(heap_of_reply(&f), Some((1048576, 4194304)));
}

#[test]
fn heap_reply_missing_field_reads_zero() {
    let f = server_frame(&eval_reply("{\"heapUsed\":77}"));
    assert_eq!(heap_of_reply(&f), Some((77, 0)));
    let f = server_frame(&eval_reply("{\"heapUsed\":\"many\",\"heapTotal\":5}"));
    assert_eq!(heap_of_reply(&f), Some((0, 5)));
}

#[test]
fn heap_reply_failures() {
    assert_eq!(heap_of_reply(&[0x81]), None);
    assert_eq!(heap_of_reply(&server_frame("not json")), None);
    assert_eq!(heap_of_reply(&server_frame("{\"id\":1,\"result\":{}}")), None);
    assert_eq!(heap_of_reply(&server_frame(&eval_reply("not json either"))), None);
}

#[test]
fn heap_spaces_reply_reads_each_space() {
    let spaces = "[{\"space_name\":\"read_only_space\",\"space_used_size\":1},{\"space_name\":\"new_space\",\"space_used_size\":10},{\"space_name\":\"old_space\",\"space_used_size\":20},{\"space_name\":\"code_space\",\"space_used_size\":30},{\"space_name\":\"new_space\",\"space_used_size\":99}]";
    let r = heap_spaces_of_reply(&server_frame(&eval_reply(spaces)));
    assert_eq!(r, HeapSpaces { new_space: 10, old_space: 20, code_space: 30, map_space: 0 });
}

#[test]
fn heap_spaces_reply_failures_read_zero() {
    assert_eq!(heap_spaces_of_reply(&[]), HeapSpaces::default());
    assert_eq!(heap_spaces_of_reply(&server_frame("{}")), HeapSpaces::default());
    let r = heap_spaces_of_reply(&server_frame(&eval_reply("[{\"space_name\":\"old_space\"}]")));
    assert_eq!(r, HeapSpaces::default());
}

#[test]
fn inspector_url_from_listing() {
    let body = "[{\"description\":\"node.js instance\",\"webSocketDebuggerUrl\":\"ws://127.0.0.1/0f2c\"},{\"webSocketDebuggerUrl\":\"ws://x:1/y\"}]";
    assert_eq!(inspector_ws_url_of(body, 9229), Some("ws://127.0.0.1:9229/0f2c".to_string()));
    let body = "[{\"webSocketDebuggerUrl\":\"ws://localhost:9230/abc\"}]";
    assert_eq!(inspector_ws_url_of(body, 9229), Some("ws://localhost:9230/abc".to_string()));
}

#[test]
fn inspector_url_needs_a_listed_target() {
    assert_eq!(inspector_ws_url_of("{\"webSocketDebuggerUrl\":\"ws://a/b\"}", 9229), None);
    assert_eq!(inspector_ws_url_of("[]", 9229), None);
    assert_eq!(inspector_ws_url_of("[{}]", 9229), None);
    assert_eq!(inspector_ws_url_of("garbage", 9229), None);
}

#[test]
fn swarm_nodes_from_reply() {
    let body = "[{\"ID\":\"abcdefghijklmnopqrstuvwxyz\",\"Description\":{\"Hostname\":\"node-1\"},\"Status\":{\"State\":\"ready\"},\"Spec\":{\"Role\":\"manager\",\"Availability\":\"drain\"}},{}]";
    let reply = format!("HTTP/1.1 200 OK\r\nContent-Type: application/json\r\n\r\n{}", body);
    let nodes = nodes_of_reply(reply.as_bytes());
    assert_eq!(nodes.len(), 2);
    assert_eq!(nodes[0].id, "abcdefghijkl");
    assert_eq!(nodes[0].hostname, "node-1");
    assert_eq!(nodes[0].status, "Ready");
    assert_eq!(nodes[0].role, "Manager");
    assert_eq!(nodes[0].availability, "Drain");
    assert_eq!(nodes[1].id, "");
    assert_eq!(nodes[1].hostname, "");
    assert_eq!(nodes[1].status, "Unknown");
    assert_eq!(nodes[1].role, "Worker");
    assert_eq!(nodes[1].availability, "Active");
}

#[test]
fn swarm_nodes_from_chunked_reply() {
    let body = "[{\"ID\":\"n1\",\"Status\":{\"State\":\"down\"}}]";
    let reply = format!(
        "HTTP/1.1 200 OK\r\nTransfer-Encoding: chunked\r\n\r\n{:x}\r\n{}\r\n0\r\n\r\n",
        body.len(),
        body
    );
    let nodes = nodes_of_reply(reply.as_bytes());
    assert_eq!(nodes.len(), 1);
    assert_eq!(nodes[0].id, "n1");
    assert_eq!(nodes[0].status, "Down");
}

#[test]
fn swarm_nodes_without_body_or_list() {
    assert!(nodes_of_reply(b"HTTP/1.1 200 OK\r\n").is_empty());
    assert!(nodes_of_reply(b"HTTP/1.1 500 Oops\r\n\r\n{\"message\":\"not a swarm manager\"}").is_empty());
}

fn sample(user: u64, idle: u64) -> ProcStatSample {
    ProcStatSample { user, idle, ..ProcStatSample::default() }
}

#[test]
fn checked_tick_deltas() {
    let a = sample(100, 1000);
    let b = sample(150, 1100);
    let d = tick_deltas_checked(&a, &b).unwrap();
    assert_eq!(d, tick_deltas(&a, &b));
    assert_eq!(d.user, 50);
    assert_eq!(d.total, 150);
    let huge = ProcStatSample { user: u64::MAX, idle: u64::MAX, ..ProcStatSample::default() };
    assert_eq!(tick_deltas_checked(&ProcStatSample::default(), &huge), None);
}

#[test]
fn block_sizes_from_sysfs_text() {
    assert_eq!(block_size_of("1953525168\n"), 1953525168 * 512);
    assert_eq!(block_size_of("  8 \n"), 4096);
    assert_eq!(block_size_of("garbage"), 0);
    assert_eq!(block_size_of(""), 0);
    assert_eq!(block_size_of("18446744073709551615"), u64::MAX);
}

/// The buffer pool utilisation in percent, from the words the library picks.
fn buffer_util(status: &str) -> f64 {
    let (total, free) = parse_innodb_buffer_words(status);
    let total_pages = total.map(|t| t.parse::<f64>().unwrap_or(0.0)).unwrap_or(0.0);
    let free_pages = free.map(|t| t.parse::<f64>().unwrap_or(0.0)).unwrap_or(0.0);
    if total_pages > 0.0 {
        ((total_pages - free_pages) / total_pages) * 100.0
    } else {
        85.4
    }
}

/// The buffer pool hit rate in percent, from the words the library picks.
fn hit_rate(status: &str) -> f64 {
    for (hit, total) in parse_innodb_hit_rate_words(status) {
        let hit = hit.parse::<f64>().unwrap_or(0.0);
        let total = total.parse::<f64>().unwrap_or(1.0);
        if total > 0.0 {
            return (hit / total) * 100.0;
        }
    }
    99.8
}

#[test]
fn test_parse_innodb_buffer_util() {
    let status = "Buffer pool size   1000\nFree buffers       200";
    assert_eq!(buffer_util(status), 80.0);
    assert_eq!(buffer_util(""), 85.4);
}

#[test]
fn test_parse_innodb_hit_rate() {
    let status = "Buffer pool hit rate 990 / 1000";
    assert_eq!(hit_rate(status), 99.0);
    assert_eq!(hit_rate(""), 99.8);
}

#[test]
fn innodb_words_pick_the_right_lines() {
    let status = "Buffer pool size 10\nBuffer pool size   2048\nother\nFree buffers 7\n";
    assert_eq!(parse_innodb_buffer_words(status), (Some("2048".to_string()), Some("7".to_string())));
    assert_eq!(parse_innodb_buffer_words("nothing here"), (None, None));
    let status = "Buffer pool hit rate 5 / 0\nBuffer pool hit rate short\nBuffer pool hit rate 998 / 1000, young-making rate 0 / 1000";
    assert_eq!(
        parse_innodb_hit_rate_words(status),
        vec![("5".to_string(), "0".to_string()), ("998".to_string(), "1000,".to_string())]
    );
}

#[test]
fn evaluated_value_text() {
    let f = server_frame(&eval_reply("{\"elu\":0.5}"));
    assert_eq!(rtop::collectors::node_runtime::eval_value_of_reply(&f), Some("{\"elu\":0.5}".to_string()));
    assert_eq!(rtop::collectors::node_runtime::eval_value_of_reply(&server_frame("{}")), None);
    assert_eq!(rtop::collectors::node_runtime::eval_value_of_reply(&[0x81, 0x05, b'a']), None);
}

#[test]
fn node_history_keeps_last_samples() {
    let mut h = rtop::collectors::node_runtime::NodeHistory::new();
    for k in 0..70u64 {
        h.push_sample(k, k * 2048);
    }
    assert_eq!(h.elu_pct.len(), 60);
    assert_eq!(h.heap_used_kib.len(), 60);
    assert_eq!(h.elu_pct.front(), Some(&10));
    assert_eq!(h.elu_pct.back(), Some(&69));
    assert_eq!(h.heap_used_kib.back(), Some(&138));
    h.push_sample(1, 1023);
    assert_eq!(h.heap_used_kib.back(), Some(&0));
}

#[test]
fn link_capacity_from_speed_text() {
    let f = rtop::collectors::network::interface_max_bps;
    assert_eq!(f("1000\n"), 125_000_000);
    assert_eq!(f("10000"), 1_250_000_000);
    assert_eq!(f("-1\n"), 125_000_000);
    assert_eq!(f("0"), 125_000_000);
    assert_eq!(f(""), 125_000_000);
    assert_eq!(f("18446744073709551615"), u64::MAX);
}

#[test]
fn total_leaves_out_loopback() {
    let nics = rtop::collectors::network::interfaces(&vec!["lo".to_string(), "eth0".to_string()]);
    let names = vec!["eth0".to_string(), "lo".to_string(), "wlan0".to_string()];
    assert_eq!(rtop::collectors::network::counted_in_total(&names, &nics), vec![true, false, true]);
    assert_eq!(rtop::collectors::network::counted_in_total(&names, &vec![]), vec![true, true, true]);
}

#[test]
fn proxy_history_records_connections_and_shares() {
    let mut h = rtop::collectors::proxy::ProxyHistory::new();
    let c = rtop::collectors::proxy::ProxyCounters {
        active_connections: 7,
        status_2xx: 90,
        status_5xx: 10,
        ..Default::default()
    };
    h.push_sample(&c);
    assert_eq!(h.connections.back(), Some(&7));
    assert_eq!(h.shares[1].back(), Some(&90));
    assert_eq!(h.shares[4].back(), Some(&10));
    assert_eq!(h.shares[0].back(), Some(&0));
    for _ in 0..3600 {
        h.push_sample(&rtop::collectors::proxy::ProxyCounters::default());
    }
    assert_eq!(h.connections.len(), 3600);
    assert_eq!(h.connections.front(), Some(&0));
    assert_eq!(h.shares[4].back(), Some(&0));
}
