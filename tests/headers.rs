use http_server::http_header::{
    ContentLength, ContentType, HttpHeader, HttpHeaderError,
};

fn parse_ok(line: &str) -> HttpHeader {
    match HttpHeader::parse(line) {
        Ok(h) => h,
        Err(e) => panic!("{line:?} refused: {e:?}"),
    }
}

#[test]
fn user_agent_header_round_trips() {
    let h = parse_ok("User-Agent: curl/8.0");
    assert!(matches!(h, HttpHeader::UserAgent(_)));
    assert_eq!(h.to_string(), "User-Agent: curl/8.0");
}

#[test]
fn every_recognized_header_round_trips() {
    for line in [
        "Host: localhost:4221",
        "Accept: */*",
        "Content-Type: text/plain",
        "Content-Type: application/octet-stream",
        "Content-Length: 0",
        "Content-Length: 1234",
        "User-Agent: ",
    ] {
        assert_eq!(parse_ok(line).to_string(), line);
    }
}

#[test]
fn value_is_split_at_first_separator() {
    let h = parse_ok("Host: a: b");
    assert_eq!(h.to_string(), "Host: a: b");
}

#[test]
fn unknown_header_is_refused() {
    match HttpHeader::parse("X-Custom: 1") {
        Err(HttpHeaderError::ParseString(s)) => assert_eq!(s, "X-Custom: 1"),
        other => panic!("unexpected {other:?}"),
    }
}

#[test]
fn line_without_separator_is_refused() {
    assert!(matches!(HttpHeader::parse("Host:localhost"), Err(HttpHeaderError::ParseString(_))));
    assert!(matches!(HttpHeader::parse(""), Err(HttpHeaderError::ParseString(_))));
    assert!(matches!(HttpHeader::parse("host: x"), Err(HttpHeaderError::ParseString(_))));
}

#[test]
fn malformed_content_length_is_refused() {
    assert!(matches!(
        HttpHeader::parse("Content-Length: abc"),
        Err(HttpHeaderError::InvalidContentLength(_))
    ));
    assert!(matches!(
        HttpHeader::parse("Content-Length: "),
        Err(HttpHeaderError::InvalidContentLength(_))
    ));
    assert!(matches!(
        HttpHeader::parse("Content-Length: 12 "),
        Err(HttpHeaderError::InvalidContentLength(_))
    ));
    assert!(matches!(
        HttpHeader::parse("Content-Length: -1"),
        Err(HttpHeaderError::InvalidContentLength(_))
    ));
    assert!(matches!(
        HttpHeader::parse("Content-Length: 18446744073709551616"),
        Err(HttpHeaderError::InvalidContentLength(_))
    ));
}

#[test]
fn content_length_values() {
    match parse_ok("Content-Length: 18446744073709551615") {
        HttpHeader::ContentLength(cl) => assert_eq!(cl.value(), usize::MAX),
        other => panic!("unexpected {other:?}"),
    }
    match parse_ok("Content-Length: +5") {
        HttpHeader::ContentLength(cl) => assert_eq!(cl.value(), 5),
        other => panic!("unexpected {other:?}"),
    }
    match parse_ok("Content-Length: 007") {
        HttpHeader::ContentLength(cl) => {
            assert_eq!(cl.value(), 7);
            assert_eq!(cl.to_string(), "7");
        }
        other => panic!("unexpected {other:?}"),
    }
    assert_eq!(ContentLength::new(0).to_string(), "0");
    assert_eq!(ContentLength::new(4096).to_string(), "4096");
}

#[test]
fn unknown_content_type_is_refused() {
    assert!(matches!(
        HttpHeader::parse("Content-Type: text/html"),
        Err(HttpHeaderError::InvalidContentType(_))
    ));
    assert!(ContentType::parse("text/plain").is_ok());
    assert_eq!(ContentType::ApplicationOctetStream.to_string(), "application/octet-stream");
}

#[test]
fn error_messages_name_the_value() {
    match HttpHeader::parse("Content-Length: abc") {
        Err(e) => assert_eq!(e.to_string(), "Invalid content length: abc"),
        Ok(_) => panic!("accepted"),
    }
    match HttpHeader::parse("Content-Type: x") {
        Err(e) => assert_eq!(e.to_string(), "Invalid content type: x"),
        Ok(_) => panic!("accepted"),
    }
    match HttpHeader::parse("X-Custom: 1") {
        Err(e) => assert_eq!(e.to_string(), "Failed to parse header from string: X-Custom: 1"),
        Ok(_) => panic!("accepted"),
    }
}
