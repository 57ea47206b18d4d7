use agent_bridge::number::{i32_as_u32, low_i32, low_u32, u32_as_i32};
use agent_bridge::sse::{classify_line, Line, LineBuffer};
use agent_bridge::table::Table;
use agent_bridge::text::{
    blank, decimal_text, parse_usize, same_text, signed_decimal_text, strip_prefix, trim,
};

#[test]
fn trim_drops_unicode_white_space() {
    for s in ["", " ", "\t a b \r\n", "\u{3000}\u{a0}x\u{2009}", "x", "\u{200b}x"] {
        assert_eq!(trim(s), s.trim());
        assert_eq!(blank(s), s.trim().is_empty());
    }
}

#[test]
fn prefixes_are_stripped_once() {
    assert_eq!(strip_prefix("data: data: x", "data: ").as_deref(), Some("data: x"));
    assert_eq!(strip_prefix("data:x", "data: "), None);
    assert_eq!(strip_prefix("da", "data: "), None);
    assert!(same_text("", ""));
    assert!(!same_text("ab", "ac"));
    assert!(!same_text("ab", "a"));
}

#[test]
fn decimal_reads_back() {
    for n in [0u64, 7, 10, 50, 101, 18446744073709551615] {
        assert_eq!(decimal_text(n), n.to_string());
    }
    for n in [0i64, -1, 9, i64::MIN, i64::MAX, -305] {
        assert_eq!(signed_decimal_text(n), n.to_string());
    }
    for s in ["0", "50", "+50", "0007", "", "+", "-1", "1 ", "1a", "18446744073709551616", "18446744073709551615"] {
        assert_eq!(parse_usize(s), s.parse::<usize>().ok());
    }
}

#[test]
fn casts_keep_the_low_bits() {
    for n in [0i64, -1, 2147483647, 2147483648, -2147483649, 4294967296, i64::MIN, i64::MAX] {
        assert_eq!(low_i32(n), n as i32);
    }
    assert_eq!(low_u32(4294967297), 1);
    assert_eq!(u32_as_i32(4294967295), -1);
    assert_eq!(i32_as_u32(-1), 4294967295);
}

fn drain(buffer: &mut LineBuffer) -> Vec<String> {
    let mut lines = Vec::new();
    while let Some(line) = buffer.next_line() {
        lines.push(line);
    }
    lines
}

#[test]
fn chunk_boundaries_make_no_difference() {
    let text = "data: a\r\n\n  data: b \nrest";
    let mut whole = LineBuffer::new();
    whole.push_bytes(text.as_bytes());
    let expected = drain(&mut whole);
    assert_eq!(expected, vec!["data: a", "", "data: b"]);
    for cut in 0..text.len() {
        let mut parts = LineBuffer::new();
        parts.push_bytes(&text.as_bytes()[..cut]);
        let mut got = drain(&mut parts);
        parts.push_bytes(&text.as_bytes()[cut..]);
        got.extend(drain(&mut parts));
        assert_eq!(got, expected);
        parts.push_text(" of it\n");
        assert_eq!(drain(&mut parts), vec!["rest of it"]);
    }
}

#[test]
fn bytes_that_are_not_utf8_are_replaced() {
    let mut buffer = LineBuffer::new();
    buffer.push_bytes(&[b'a', 0xff, b'b', b'\n']);
    assert_eq!(drain(&mut buffer), vec!["a\u{fffd}b"]);
}

#[test]
fn lines_are_told_apart() {
    assert!(matches!(classify_line("data: [DONE]"), Line::Done));
    assert!(matches!(classify_line("data: {}"), Line::Data(d) if d == "{}"));
    assert!(matches!(classify_line(""), Line::Other));
    assert!(matches!(classify_line(": comment"), Line::Other));
    assert!(matches!(classify_line("event: x"), Line::Other));
}

#[test]
fn a_table_holds_one_value_per_name() {
    let mut t: Table<u64> = Table::new();
    t.insert("a".to_string(), 1);
    t.insert("b".to_string(), 2);
    t.insert("a".to_string(), 3);
    assert_eq!(t.len(), 2);
    assert_eq!(t.get("a"), Some(3));
    assert_eq!(t.remove("a"), Some(3));
    assert_eq!(t.remove("a"), None);
    assert_eq!(t.get("a"), None);
    assert_eq!(t.values(), vec![2]);
}
