use rtop::collectors::http::{handshake_accepted, http_response_body, loose_response_body};
use rtop::collectors::node_runtime::inspector_port_candidates;
use rtop::text::split_on_char;
use rtop::ui::widgets::process_table::{filtered_process_count, passing_indices};

#[test]
fn http_bodies_and_status_codes() {
    assert_eq!(http_response_body("HTTP/1.0 200 OK\r\nX: y\r\n\r\nActive connections: 1"), Ok("Active connections: 1".to_string()));
    assert_eq!(http_response_body("HTTP/1.1 404 Not Found\r\n\r\nnope"), Err(404));
    assert_eq!(http_response_body("HTTP/1.1\r\n\r\n"), Err(0));
    assert_eq!(http_response_body("HTTP/1.0 200 OK"), Ok("HTTP/1.0 200 OK".to_string()));
    assert_eq!(http_response_body("plain text"), Ok("plain text".to_string()));
}

#[test]
fn loose_bodies_and_handshakes() {
    assert_eq!(loose_response_body("HTTP/1.1 200 OK\r\n\r\n[1]"), Some("[1]".to_string()));
    assert_eq!(loose_response_body("HTTP/1.1 200 OK\n\n[2]"), Some("[2]".to_string()));
    assert_eq!(loose_response_body("no body"), None);
    assert!(handshake_accepted("HTTP/1.1 101 Switching Protocols\r\n"));
    assert!(!handshake_accepted("HTTP/1.1 400 Bad Request\r\n"));
}

#[test]
fn inspector_ports_from_the_command_line() {
    let c = inspector_port_candidates("node\0--inspect-port=9333\0app.js\0--inspect=9444\0--inspect=0.0.0.0:9555\0");
    let mut expected: Vec<u16> = (9229..=9239).collect();
    expected.push(9333);
    expected.push(9444);
    assert_eq!(c, expected);
    assert_eq!(inspector_port_candidates("").len(), 11);
}

#[test]
fn splitting_on_a_character() {
    let s: Vec<char> = "a\0b\0".chars().collect();
    let parts = split_on_char(&s, '\0');
    assert_eq!(parts, vec![vec!['a'], vec!['b'], vec![]]);
    assert_eq!(split_on_char(&[], ','), vec![Vec::<char>::new()]);
}

#[test]
fn filter_count_agrees_with_listed_rows() {
    let names = vec!["nginx".to_string(), "Postgres".to_string(), "nginx-worker".to_string(), "bash".to_string()];
    let rows = passing_indices(&names, "NGINX");
    assert_eq!(rows, vec![0, 2]);
    assert_eq!(rows.len(), filtered_process_count(&names, "NGINX"));
    assert_eq!(passing_indices(&names, ""), vec![0, 1, 2, 3]);
}
