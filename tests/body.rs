use verity_canister::body::get_http_response_body;

fn body(s: &str) -> String {
    get_http_response_body(s.to_string())
}

#[test]
fn crlf_headers_then_object() {
    let text = "HTTP/1.1 200 OK\r\nContent-Type: application/json\r\n\r\n{\"data\":1234}";
    assert_eq!(body(text), "{\"data\":1234}");
}

#[test]
fn lf_headers_then_object_is_trimmed() {
    assert_eq!(body("Header: v\n\n  {\"b\":2}  \n"), "{\"b\":2}");
}

#[test]
fn last_crlf_separator_wins() {
    assert_eq!(body("a\r\n\r\nb\r\n\r\n{\"c\":3}"), "{\"c\":3}");
}

#[test]
fn crlf_separator_preferred_over_later_lf() {
    assert_eq!(body("h\r\n\r\nbody\n\nmore"), "body\n\nmore");
}

#[test]
fn noise_around_object_without_separator() {
    assert_eq!(body("noise{\"a\":1}noise"), "{\"a\":1}");
}

#[test]
fn whitespace_only_gives_empty() {
    assert_eq!(body("  \r\n\t "), "");
    assert_eq!(body(""), "");
    assert_eq!(body("\r\n\r\n"), "");
}

#[test]
fn blank_after_separator_falls_back_to_whole_text() {
    assert_eq!(body("  {\"x\":1}\r\n\r\n   "), "{\"x\":1}");
}

#[test]
fn closing_brace_before_opening_is_kept_whole() {
    assert_eq!(body("  abc}{def "), "abc}{def");
}

#[test]
fn plain_body_without_object() {
    assert_eq!(body("HTTP/1.1 200 OK\n\n  1234 \n"), "1234");
}

#[test]
fn unicode_whitespace_is_trimmed() {
    assert_eq!(body("\u{3000}42\u{a0}"), "42");
}

#[test]
fn non_ascii_text_survives() {
    assert_eq!(body("h\n\nprix: {\"€\":5}"), "{\"€\":5}");
}
