use rtop::order::lex_lt_exec;
use rtop::text::{
    after_last_chars, chars_of, find_chars, parse_hex_exec, parse_u16, parse_u64, split_lines, split_once_chars,
    split_words, trim_chars,
};

fn cs(s: &str) -> Vec<char> {
    s.chars().collect()
}

#[test]
fn words_and_lines() {
    let w = split_words(&cs("  a bb\tccc \n"));
    assert_eq!(w, vec![cs("a"), cs("bb"), cs("ccc")]);
    let l = split_lines(&cs("x\r\ny\n\nz"));
    assert_eq!(l, vec![cs("x"), cs("y"), cs(""), cs("z")]);
    assert_eq!(trim_chars(&cs("  hi  ")), cs("hi"));
    assert_eq!(chars_of("día"), cs("día"));
}

#[test]
fn number_parsing() {
    assert_eq!(parse_u16(&cs("8080")), Some(8080));
    assert_eq!(parse_u16(&cs("+80")), Some(80));
    assert_eq!(parse_u16(&cs("70000")), None);
    assert_eq!(parse_u16(&cs("")), None);
    assert_eq!(parse_u64(&cs("18446744073709551615")), Some(u64::MAX));
    assert_eq!(parse_u64(&cs("18446744073709551616")), None);
    assert_eq!(parse_hex_exec(&cs("1aF"), u64::MAX), Some(0x1af));
    assert_eq!(parse_hex_exec(&cs("xyz"), u64::MAX), None);
}

#[test]
fn searching_and_splitting() {
    assert_eq!(find_chars(&cs("a->b->c"), &cs("->"), 0), Some(1));
    assert_eq!(find_chars(&cs("a->b->c"), &cs("->"), 2), Some(4));
    assert_eq!(find_chars(&cs("abc"), &cs("x"), 0), None);
    assert_eq!(split_once_chars(&cs("k=v=w"), '='), Some((cs("k"), cs("v=w"))));
    assert_eq!(after_last_chars(&cs("a/b/c"), '/'), cs("c"));
    assert!(lex_lt_exec(&cs("abc"), &cs("abd")));
    assert!(lex_lt_exec(&cs("ab"), &cs("abc")));
    assert!(!lex_lt_exec(&cs("b"), &cs("abc")));
}
