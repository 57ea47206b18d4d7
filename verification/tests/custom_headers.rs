use agent_bridge::custom_headers::parse_extra_headers;

#[test]
fn pairs_parse_with_last_wins_and_trimming() {
    let map = parse_extra_headers(&[
        ("  X-Agent-Id ".to_string(), " agent-7 ".to_string()),
        ("X-Group-Id".to_string(), "g1".to_string()),
        ("X-Group-Id".to_string(), "g2".to_string()),
    ])
    .expect("valid pairs parse");
    assert_eq!(map.get("x-agent-id").unwrap(), "agent-7");
    assert_eq!(map.get("x-group-id").unwrap(), "g2");
}

#[test]
fn invalid_name_is_a_construction_error() {
    let err = parse_extra_headers(&[("Bad Header".to_string(), "v".to_string())])
        .expect_err("space in header name is invalid");
    assert!(err.message().contains("Bad Header"));
}

#[test]
fn invalid_value_is_a_construction_error() {
    let err = parse_extra_headers(&[("X-K".to_string(), "bad\u{7}value".to_string())])
        .expect_err("control character in value is invalid");
    assert!(err.message().contains("X-K"));
}

#[test]
fn the_first_bad_pair_decides() {
    let err = parse_extra_headers(&[
        ("X-A".to_string(), "ok".to_string()),
        (" ".to_string(), "v".to_string()),
        ("X-B".to_string(), "\u{1}".to_string()),
    ])
    .expect_err("a blank name is invalid");
    assert_eq!(err.message(), "invalid custom header name '': invalid HTTP header name");
    let err = parse_extra_headers(&[("X-B".to_string(), "\u{7f}".to_string())])
        .expect_err("delete is a control character");
    assert_eq!(
        err.message(),
        "invalid custom header value for 'X-B': failed to parse header value"
    );
}

#[test]
fn names_differ_by_more_than_case() {
    let map = parse_extra_headers(&[
        ("X-Token!#$%&'*+.^_`|~9".to_string(), "tab\there".to_string()),
        ("x-a".to_string(), "1".to_string()),
        ("X-A".to_string(), "\u{e9}".to_string()),
    ])
    .expect("valid pairs parse");
    assert_eq!(map.len(), 2);
    assert_eq!(map.get("x-token!#$%&'*+.^_`|~9").unwrap(), "tab\there");
    assert_eq!(map.get("x-a").unwrap().as_bytes(), "\u{e9}".as_bytes());
    assert_eq!(parse_extra_headers(&[]).unwrap().len(), 0);
}

#[test]
fn characters_outside_the_token_set_are_refused() {
    for name in ["a b", "a:b", "a(b", "a/b", "a@b", "a\"b", "\u{e9}", "a\u{0}"] {
        assert!(parse_extra_headers(&[(name.to_string(), "v".to_string())]).is_err());
    }
    let long = "a".repeat(65535);
    assert!(parse_extra_headers(&[(long.clone(), "v".to_string())]).is_ok());
    assert!(parse_extra_headers(&[(long + "a", "v".to_string())]).is_err());
}

#[test]
fn many_names_fit_and_too_many_are_an_error() {
    let pairs = |n: usize| -> Vec<(String, String)> {
        (0..n).map(|i| (format!("X-Header-{i}"), format!("v{i}"))).collect()
    };
    let map = parse_extra_headers(&pairs(6554)).expect("every name fits");
    assert_eq!(map.len(), 6554);
    assert_eq!(map.get("x-header-6553").unwrap(), "v6553");
    assert_eq!(parse_extra_headers(&pairs(20000)).expect("every name fits").len(), 20000);
    let err = parse_extra_headers(&pairs(24577)).expect_err("more names than a map takes");
    assert_eq!(err.message(), "too many custom headers");
    // The pairs are read in order: what comes first decides.
    let mut wrong_at_the_end = pairs(24577);
    wrong_at_the_end.push(("a b".to_string(), "v".to_string()));
    let err = parse_extra_headers(&wrong_at_the_end).unwrap_err();
    assert_eq!(err.message(), "too many custom headers");
}
