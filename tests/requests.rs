use http_server::http_header::HttpHeaderError;
use http_server::http_request::{HttpMethod, HttpRequest, RequestError};

fn parse_ok(input: &[u8]) -> (HttpRequest, usize) {
    match HttpRequest::parse(input) {
        Ok(r) => r,
        Err(e) => panic!("refused: {e:?}"),
    }
}

#[test]
fn parses_request_without_body() {
    let input = b"GET /echo/abc HTTP/1.1\r\nHost: localhost:4221\r\nUser-Agent: curl/8.0\r\nAccept: */*\r\n\r\n";
    let (req, n) = parse_ok(input);
    assert_eq!(n, input.len());
    assert_eq!(*req.http_method(), HttpMethod::Get);
    assert_eq!(req.request_target(), "/echo/abc");
    assert_eq!(req.user_agent().unwrap().value(), "curl/8.0");
    assert!(req.body().is_none());
}

#[test]
fn parses_request_with_no_headers() {
    let (req, n) = parse_ok(b"POST /files/x HTTP/1.1\r\n\r\n");
    assert_eq!(n, 26);
    assert_eq!(*req.http_method(), HttpMethod::Post);
    assert_eq!(req.request_target(), "/files/x");
    assert!(req.user_agent().is_none());
}

#[test]
fn body_takes_exactly_content_length_bytes() {
    let input = b"POST /files/a.txt HTTP/1.1\r\nContent-Length: 5\r\n\r\nhelloEXTRA BYTES";
    let (req, n) = parse_ok(input);
    assert_eq!(req.body().unwrap(), "hello");
    assert_eq!(n, input.len() - "EXTRA BYTES".len());
    let (again, m) = parse_ok(&input[..n]);
    assert_eq!(again.body().unwrap(), "hello");
    assert_eq!(m, n);
}

#[test]
fn last_content_length_wins() {
    let input = b"POST /files/a HTTP/1.1\r\nContent-Length: 9\r\nContent-Length: 2\r\n\r\nhello";
    let (req, n) = parse_ok(input);
    assert_eq!(req.body().unwrap(), "he");
    assert_eq!(n, input.len() - 3);
}

#[test]
fn last_user_agent_wins() {
    let input = b"GET /user-agent HTTP/1.1\r\nUser-Agent: a\r\nUser-Agent: b\r\n\r\n";
    let (req, _) = parse_ok(input);
    assert_eq!(req.user_agent().unwrap().value(), "b");
}

#[test]
fn zero_content_length_has_no_body() {
    let (req, n) = parse_ok(b"POST /files/a HTTP/1.1\r\nContent-Length: 0\r\n\r\nxyz");
    assert!(req.body().is_none());
    assert_eq!(n, 45);
}

#[test]
fn multibyte_body_counts_bytes() {
    let input = "POST /files/a HTTP/1.1\r\nContent-Length: 3\r\n\r\naé!".as_bytes();
    let (req, _) = parse_ok(input);
    assert_eq!(req.body().unwrap(), "aé");
}

#[test]
fn short_input_is_incomplete() {
    assert!(matches!(HttpRequest::parse(b""), Err(RequestError::Incomplete)));
    assert!(matches!(HttpRequest::parse(b"GET / HTTP/1.1"), Err(RequestError::Incomplete)));
    assert!(matches!(HttpRequest::parse(b"GET / HTTP/1.1\r\nHost: x\r\n"), Err(RequestError::Incomplete)));
    assert!(matches!(
        HttpRequest::parse(b"POST /files/a HTTP/1.1\r\nContent-Length: 5\r\n\r\nhel"),
        Err(RequestError::Incomplete)
    ));
}

#[test]
fn unknown_header_fails_request() {
    let input = b"GET / HTTP/1.1\r\nX-Custom: 1\r\n\r\n";
    match HttpRequest::parse(input) {
        Err(RequestError::InvalidHeader(HttpHeaderError::ParseString(s))) => assert_eq!(s, "X-Custom: 1"),
        other => panic!("unexpected {:?}", other.map(|(_, n)| n)),
    }
}

#[test]
fn malformed_content_length_fails_request() {
    let input = b"POST /files/a HTTP/1.1\r\nContent-Length: abc\r\n\r\n";
    assert!(matches!(
        HttpRequest::parse(input),
        Err(RequestError::InvalidHeader(HttpHeaderError::InvalidContentLength(_)))
    ));
}

#[test]
fn bad_request_lines_fail() {
    assert!(matches!(HttpRequest::parse(b"PUT / HTTP/1.1\r\n\r\n"), Err(RequestError::InvalidMethod(_))));
    assert!(matches!(HttpRequest::parse(b"get / HTTP/1.1\r\n\r\n"), Err(RequestError::InvalidMethod(_))));
    assert!(matches!(HttpRequest::parse(b"GET\r\n\r\n"), Err(RequestError::MissingTarget)));
}

#[test]
fn invalid_utf8_fails() {
    assert!(matches!(
        HttpRequest::parse(b"GET / HTTP/1.1\r\nHost: \xff\r\n\r\n"),
        Err(RequestError::InvalidEncoding)
    ));
    assert!(matches!(
        HttpRequest::parse(b"POST /files/a HTTP/1.1\r\nContent-Length: 1\r\n\r\n\xff"),
        Err(RequestError::InvalidBody)
    ));
}

#[test]
fn target_is_not_decoded() {
    let (req, _) = parse_ok(b"GET /echo/a%20b HTTP/1.1\r\n\r\n");
    assert_eq!(req.request_target(), "/echo/a%20b");
}
