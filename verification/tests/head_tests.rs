use rngrok::util::{rand_id, read_http_head};

#[test]
fn reads_host_of_a_request() {
    let head = read_http_head(b"GET / HTTP/1.1\r\nHost: example.com\r\nAccept: */*\r\n\r\nbody").unwrap();
    assert_eq!(head.get("host").map(|s| s.as_str()), Some("example.com"));
    assert_eq!(head.get("accept").map(|s| s.as_str()), Some("*/*"));
    assert_eq!(head.get("Host"), None);
    assert_eq!(head.len(), 2);
}

#[test]
fn plain_newlines_end_lines_too() {
    let head = read_http_head(b"GET / HTTP/1.1\nX-A: 1\n\n").unwrap();
    assert_eq!(head.get("x-a").map(|s| s.as_str()), Some("1"));
}

#[test]
fn incomplete_head_is_none() {
    assert!(read_http_head(b"GET / HTTP/1.1\r\nHost: example.com\r\n").is_none());
    assert!(read_http_head(b"GET / HTTP/1.1\r\nHost: exa").is_none());
    assert!(read_http_head(b"").is_none());
}

#[test]
fn empty_first_line_gives_empty_head() {
    let head = read_http_head(b"\r\nHost: x\r\n\r\n").unwrap();
    assert_eq!(head.len(), 0);
}

#[test]
fn invalid_utf8_line_is_none() {
    assert!(read_http_head(b"GET / HTTP/1.1\r\nX: \xff\r\n\r\n").is_none());
}

#[test]
fn invalid_utf8_after_the_head_does_not_matter() {
    let head = read_http_head(b"GET / HTTP/1.1\r\nHost: a\r\n\r\n\xff\xfe").unwrap();
    assert_eq!(head.get("host").map(|s| s.as_str()), Some("a"));
}

#[test]
fn names_are_lowercased_and_later_fields_win() {
    let head = read_http_head(b"GET / HTTP/1.1\r\nHOST: a\r\nhost: b\r\n\r\n").unwrap();
    assert_eq!(head.get("host").map(|s| s.as_str()), Some("b"));
    assert_eq!(head.len(), 1);
}

#[test]
fn lines_without_exactly_one_separator_are_skipped() {
    let head = read_http_head(b"GET / HTTP/1.1\r\nA:b\r\nB: c: d\r\nC: \r\n: e\r\n\r\n").unwrap();
    assert_eq!(head.get("a"), None);
    assert_eq!(head.get("b"), None);
    assert_eq!(head.get("c").map(|s| s.as_str()), Some(""));
    assert_eq!(head.get("").map(|s| s.as_str()), Some("e"));
    assert_eq!(head.len(), 2);
}

#[test]
fn value_keeps_its_case_and_inner_colons() {
    let head = read_http_head(b"GET / HTTP/1.1\r\nHost: Example.COM:8080\r\n\r\n").unwrap();
    assert_eq!(head.get("host").map(|s| s.as_str()), Some("Example.COM:8080"));
}

#[test]
fn carriage_return_without_newline_stays_in_last_line() {
    assert!(read_http_head(b"GET / HTTP/1.1\r\n\r").is_none());
}

#[test]
fn bytes_after_a_complete_head_change_nothing() {
    let head = b"GET / HTTP/1.1\r\nHost: a\r\n\r\n".to_vec();
    let mut more = head.clone();
    more.extend_from_slice(b"Host: b\r\n\r\n");
    let h1 = read_http_head(&head).unwrap();
    let h2 = read_http_head(&more).unwrap();
    assert_eq!(h1.get("host"), h2.get("host"));
    assert_eq!(h2.len(), 1);
}

#[test]
fn rand_id_is_alphanumeric_of_the_length_asked() {
    for len in [0usize, 1, 6, 8, 16] {
        let id = rand_id(len);
        assert_eq!(id.chars().count(), len);
        assert!(id.chars().all(|c| c.is_ascii_alphanumeric()));
    }
}
