use rtop::collectors::node_runtime::{decimal_chars, decode_ws_frame, encode_ws_frame, normalize_ws_url, parse_simple};

#[test]
fn ws_text_frame_is_masked() {
    let f = encode_ws_frame(b"hi");
    assert_eq!(f, vec![0x81, 0x82, 0x37, 0xfa, 0x21, 0x3d, b'h' ^ 0x37, b'i' ^ 0xfa]);
}

#[test]
fn ws_frames_round_trip() {
    for len in [0usize, 1, 125, 126, 300, 70000] {
        let payload: Vec<u8> = (0..len).map(|i| (i % 251) as u8).collect();
        let frame = encode_ws_frame(&payload);
        assert_eq!(decode_ws_frame(&frame), Some(payload));
    }
}

#[test]
fn ws_server_frames_decode() {
    assert_eq!(decode_ws_frame(&[0x81, 0x02, b'o', b'k']), Some(b"ok".to_vec()));
    assert_eq!(decode_ws_frame(&[0x81, 0x05, b'o', b'k']), None);
    assert_eq!(decode_ws_frame(&[0x81]), None);
    let mut long = vec![0x81, 126, 0x01, 0x00];
    long.extend(std::iter::repeat(7u8).take(256));
    assert_eq!(decode_ws_frame(&long).map(|p| p.len()), Some(256));
}

#[test]
fn ws_urls_get_a_port() {
    assert_eq!(normalize_ws_url("ws://127.0.0.1/abc", 9229), "ws://127.0.0.1:9229/abc");
    assert_eq!(normalize_ws_url("ws://127.0.0.1:9230/abc", 9229), "ws://127.0.0.1:9230/abc");
    assert_eq!(normalize_ws_url("ws://localhost", 9229), "ws://localhost:9229");
    let once = normalize_ws_url("ws://h/x", 1);
    assert_eq!(normalize_ws_url(&once, 2), once);
}

#[test]
fn simple_urls() {
    let u = parse_simple("http://127.0.0.1:9229/json/list?x=1").unwrap();
    assert_eq!(u.host, "127.0.0.1");
    assert_eq!(u.port, 9229);
    assert_eq!(u.path, "/json/list");
    assert_eq!(u.query, Some("x=1".to_string()));
    let d = parse_simple("ws://example").unwrap();
    assert_eq!(d.port, 80);
    assert_eq!(d.path, "/");
    assert!(parse_simple("ftp://x").is_none());
    assert!(parse_simple("http://h:notaport/").is_none());
    assert_eq!(decimal_chars(9229).iter().collect::<String>(), "9229");
}
