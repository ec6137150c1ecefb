use rtop::collectors::proxy::{
    count_traefik, extract_label, extract_proxy_container_port, extract_proxy_port, parse_apache_status,
    parse_nginx_status, share_pct_exec, status_shares, MetricLine, ProxyCounters,
};
use rtop::models::HttpProxyType;

#[test]
fn test_parse_nginx_status() {
    let body = "Active connections: 42 \nserver accepts handled requests\n 100 100 250\nReading: 1 Writing: 3 Waiting: 38\n";
    let mut m = ProxyCounters::default();
    parse_nginx_status(body, &mut m);
    assert_eq!(m.active_connections, 42);
    assert_eq!(m.requests_total, 250);
    assert_eq!(m.reading, 1);
    assert_eq!(m.writing, 3);
    assert_eq!(m.waiting, 38);
}

#[test]
fn test_parse_apache_status() {
    let body = "Total Accesses: 5234\nBusyWorkers: 3\nIdleWorkers: 247\n";
    let mut m = ProxyCounters::default();
    parse_apache_status(body, &mut m);
    assert_eq!(m.requests_total, 5234);
    assert_eq!(m.busy_workers, 3);
    assert_eq!(m.idle_workers, 247);
}

#[test]
fn test_extract_proxy_container_port() {
    let ports = vec!["0.0.0.0:8080->8080/tcp".to_string(), "0.0.0.0:80->80/tcp".to_string()];
    assert_eq!(extract_proxy_container_port(&ports, HttpProxyType::Traefik), 8080);
    assert_eq!(extract_proxy_container_port(&ports, HttpProxyType::Nginx), 80);
}

#[test]
fn apache_busy_workers_are_active_connections() {
    let mut m = ProxyCounters::default();
    parse_apache_status("BusyWorkers: 7\n", &mut m);
    assert_eq!(m.active_connections, 7);
}

#[test]
fn label_extraction() {
    let line = "traefik_entrypoint_requests_total{code=\"200\",entrypoint=\"web\"} 42.0";
    assert_eq!(extract_label(line, "code"), Some("200".to_string()));
    assert_eq!(extract_label(line, "entrypoint"), Some("web".to_string()));
    assert_eq!(extract_label(line, "method"), None);
}

#[test]
fn status_shares_of_counts() {
    let mut c = ProxyCounters::default();
    c.status_2xx = 3;
    c.status_5xx = 1;
    let s = status_shares(&c);
    assert_eq!(s, [0, 75, 0, 0, 25]);
    assert_eq!(share_pct_exec(1, 3), 33);
    assert_eq!(share_pct_exec(5, 0), 500);
    let total: u64 = status_shares(&c).iter().sum();
    assert!(total <= 100);
}

#[test]
fn proxy_port_from_command_line_defaults() {
    assert_eq!(extract_proxy_port("nginx: master process", HttpProxyType::Nginx), 80);
}

fn metric_lines(body: &str) -> Vec<MetricLine> {
    body.lines()
        .map(|line| MetricLine {
            text: line.to_string(),
            value: line.split_whitespace().last().and_then(|s| s.parse::<f64>().ok()).unwrap_or(0.0) as u64,
        })
        .collect()
}

#[test]
fn test_parse_traefik_metrics() {
    let body = r#"# HELP traefik_entrypoint_requests_total
# TYPE traefik_entrypoint_requests_total counter
traefik_entrypoint_requests_total{code="200",entrypoint="web",method="GET",protocol="http"} 42.0
traefik_entrypoint_requests_total{code="404",entrypoint="web",method="GET",protocol="http"} 5.0
traefik_entrypoint_open_connections{entrypoint="web",protocol="http"} 3.0
"#;
    let m = count_traefik(&metric_lines(body)).unwrap();
    assert_eq!(m.status_2xx, 42);
    assert_eq!(m.status_4xx, 5);
    assert_eq!(m.requests_total, 47);
    assert_eq!(m.active_connections, 3);
}

#[test]
fn traefik_counts_every_class_and_skips_comments() {
    let lines = vec![
        MetricLine { text: "# traefik_entrypoint_requests_total{code=\"500\"} 9".to_string(), value: 9 },
        MetricLine { text: "traefik_entrypoint_requests_total{code=\"101\"} 1".to_string(), value: 1 },
        MetricLine { text: "traefik_entrypoint_requests_total{code=\"301\"} 2".to_string(), value: 2 },
        MetricLine { text: "traefik_entrypoint_requests_total{code=\"503\"} 4".to_string(), value: 4 },
        MetricLine { text: "traefik_entrypoint_requests_total{code=\"503\"} 6".to_string(), value: 6 },
        MetricLine { text: "traefik_entrypoint_requests_total{method=\"GET\"} 8".to_string(), value: 8 },
        MetricLine { text: "traefik_entrypoint_open_connections{} 2".to_string(), value: 2 },
        MetricLine { text: "traefik_entrypoint_open_connections{} 5".to_string(), value: 5 },
        MetricLine { text: "go_goroutines 77".to_string(), value: 77 },
    ];
    let m = count_traefik(&lines).unwrap();
    assert_eq!((m.status_1xx, m.status_2xx, m.status_3xx, m.status_4xx, m.status_5xx), (1, 0, 2, 0, 10));
    assert_eq!(m.requests_total, 13);
    assert_eq!(m.active_connections, 7);
    assert_eq!(count_traefik(&vec![]).unwrap(), ProxyCounters::default());
}

#[test]
fn traefik_sum_that_does_not_fit_is_refused() {
    let lines = vec![
        MetricLine { text: "traefik_entrypoint_requests_total{code=\"200\"} x".to_string(), value: u64::MAX },
        MetricLine { text: "traefik_entrypoint_requests_total{code=\"404\"} x".to_string(), value: 1 },
    ];
    assert!(count_traefik(&lines).is_none());
    let conns = vec![
        MetricLine { text: "traefik_entrypoint_open_connections x".to_string(), value: u32::MAX as u64 },
        MetricLine { text: "traefik_entrypoint_open_connections x".to_string(), value: 1 },
    ];
    assert!(count_traefik(&conns).is_none());
}
