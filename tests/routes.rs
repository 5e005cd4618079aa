use std::collections::HashMap;

use http_server::args::{Args, ArgsError, Config};
use http_server::http_header::UserAgent;
use http_server::http_request::{HttpMethod, HttpRequest};
use http_server::http_request_handler::{
    dispatch, handle_get_echo, handle_get_files, handle_get_root, handle_get_user_agent,
    handle_not_found, handle_post_files, Action, HandlerError,
};
use http_server::http_response::{HttpResponse, HttpResponseCode};
use http_server::router::HttpRequestType;

fn route(m: HttpMethod, t: &str) -> Option<HttpRequestType> {
    HttpRequestType::try_new(&m, t)
}

fn request(input: &str) -> HttpRequest {
    HttpRequest::parse(input.as_bytes()).ok().unwrap().0
}

fn respond(input: &str) -> HttpResponse {
    match dispatch(&request(input)) {
        Ok(Action::Respond(r)) => r,
        _ => panic!("no response"),
    }
}

fn headers_of(r: &HttpResponse) -> Vec<String> {
    (0..r.header_count()).map(|i| r.header_text_at(i)).collect()
}

#[test]
fn classify_routes() {
    assert!(matches!(route(HttpMethod::Get, "/"), Some(HttpRequestType::GetRoot)));
    assert!(matches!(route(HttpMethod::Get, "/echo/abc"), Some(HttpRequestType::GetEcho(s)) if s == "abc"));
    assert!(matches!(route(HttpMethod::Get, "/echo/"), Some(HttpRequestType::GetEcho(s)) if s.is_empty()));
    assert!(matches!(route(HttpMethod::Get, "/user-agent"), Some(HttpRequestType::GetUserAgent)));
    assert!(matches!(route(HttpMethod::Get, "/files/a.txt"), Some(HttpRequestType::GetFile(s)) if s == "a.txt"));
    assert!(matches!(route(HttpMethod::Post, "/files/a.txt"), Some(HttpRequestType::PostFile(s)) if s == "a.txt"));
}

#[test]
fn unmatched_routes() {
    for t in ["", "/echo", "/echo/a/b", "/user-agent/", "/files", "/x", "//", "echo/a", "/echo/abc?x=1/"] {
        assert!(route(HttpMethod::Get, t).is_none(), "{t}");
    }
    assert!(route(HttpMethod::Post, "/").is_none());
    assert!(route(HttpMethod::Post, "/echo/abc").is_none());
    assert!(route(HttpMethod::Post, "/user-agent").is_none());
}

#[test]
fn segments_are_not_decoded() {
    assert!(matches!(route(HttpMethod::Get, "/echo/a%2Fb"), Some(HttpRequestType::GetEcho(s)) if s == "a%2Fb"));
}

#[test]
fn echo_response() {
    let r = handle_get_echo("abc".to_string());
    assert_eq!(r.http_response_code(), HttpResponseCode::Okay);
    assert_eq!(r.http_response_code().number(), 200);
    assert_eq!(headers_of(&r), vec!["Content-Type: text/plain", "Content-Length: 3"]);
    assert_eq!(r.http_response_body().unwrap(), "abc");
    assert_eq!(
        r.to_string(),
        "HTTP/1.1 200 OK\r\nContent-Type: text/plain\r\nContent-Length: 3\r\n\r\nabc"
    );
}

#[test]
fn echo_length_counts_bytes() {
    let r = handle_get_echo("é".to_string());
    assert_eq!(headers_of(&r), vec!["Content-Type: text/plain", "Content-Length: 2"]);
}

#[test]
fn bare_responses() {
    assert_eq!(handle_get_root().to_string(), "HTTP/1.1 200 OK\r\n\r\n");
    assert_eq!(handle_not_found().to_string(), "HTTP/1.1 404 Not Found\r\n\r\n");
    assert_eq!(handle_post_files().to_string(), "HTTP/1.1 201 Created\r\n\r\n");
    assert_eq!(handle_not_found().header_count(), 0);
    assert_eq!(HttpResponseCode::Created.number(), 201);
    assert_eq!(HttpResponseCode::NotFound.to_string(), "404 Not Found");
}

#[test]
fn response_with_empty_header_list() {
    let r = HttpResponse::new(HttpResponseCode::Okay, Some(vec![]), Some("x".to_string()));
    assert_eq!(r.to_string(), "HTTP/1.1 200 OK\r\n\r\nx");
}

#[test]
fn user_agent_response() {
    let r = respond("GET /user-agent HTTP/1.1\r\nUser-Agent: foobar/1.2.3\r\n\r\n");
    assert_eq!(
        r.to_string(),
        "HTTP/1.1 200 OK\r\nContent-Type: text/plain\r\nContent-Length: 12\r\n\r\nfoobar/1.2.3"
    );
    let direct = handle_get_user_agent(request("GET / HTTP/1.1\r\nUser-Agent: ab\r\n\r\n").user_agent().unwrap());
    assert_eq!(direct.http_response_body().unwrap(), "ab");
}

#[test]
fn user_agent_route_without_header() {
    let req = request("GET /user-agent HTTP/1.1\r\n\r\n");
    assert!(matches!(dispatch(&req), Err(HandlerError::MissingUserAgent)));
    let _: Option<&UserAgent> = req.user_agent();
}

#[test]
fn dispatch_simple_routes() {
    assert_eq!(respond("GET / HTTP/1.1\r\n\r\n").to_string(), "HTTP/1.1 200 OK\r\n\r\n");
    assert_eq!(respond("GET /nothing HTTP/1.1\r\n\r\n").to_string(), "HTTP/1.1 404 Not Found\r\n\r\n");
    assert_eq!(
        respond("GET /echo/abc HTTP/1.1\r\n\r\n").to_string(),
        "HTTP/1.1 200 OK\r\nContent-Type: text/plain\r\nContent-Length: 3\r\n\r\nabc"
    );
}

#[test]
fn file_round_trip() {
    let mut directory: HashMap<String, String> = HashMap::new();
    let post = request("POST /files/a.txt HTTP/1.1\r\nContent-Length: 5\r\n\r\nhello");
    match dispatch(&post) {
        Ok(Action::WriteFile(name, body)) => {
            assert_eq!(name, "a.txt");
            assert_eq!(body, "hello");
            directory.insert(name, body);
        }
        _ => panic!("expected a write"),
    }
    assert_eq!(handle_post_files().http_response_code(), HttpResponseCode::Created);
    let get = request("GET /files/a.txt HTTP/1.1\r\n\r\n");
    let r = match dispatch(&get) {
        Ok(Action::ReadFile(name)) => handle_get_files(directory.get(&name).cloned()),
        _ => panic!("expected a read"),
    };
    assert_eq!(r.http_response_code(), HttpResponseCode::Okay);
    assert_eq!(headers_of(&r), vec!["Content-Type: application/octet-stream", "Content-Length: 5"]);
    assert_eq!(r.http_response_body().unwrap(), "hello");
}

#[test]
fn missing_file() {
    let directory: HashMap<String, String> = HashMap::new();
    let get = request("GET /files/missing.txt HTTP/1.1\r\n\r\n");
    let r = match dispatch(&get) {
        Ok(Action::ReadFile(name)) => handle_get_files(directory.get(&name).cloned()),
        _ => panic!("expected a read"),
    };
    assert_eq!(r.http_response_code(), HttpResponseCode::NotFound);
    assert_eq!(r.header_count(), 0);
    assert!(r.http_response_body().is_none());
    assert_eq!(r.to_string(), "HTTP/1.1 404 Not Found\r\n\r\n");
}

#[test]
fn post_file_without_body() {
    let post = request("POST /files/a.txt HTTP/1.1\r\n\r\n");
    assert!(matches!(dispatch(&post), Err(HandlerError::MissingBody)));
}

#[test]
fn args_parsing() {
    let none: Vec<String> = vec![];
    let mut a = Args::from_args(&none).ok().unwrap();
    assert!(a.take_directory().is_none());
    let given = vec!["--directory".to_string(), "/tmp/x".to_string()];
    let mut a = Args::from_args(&given).ok().unwrap();
    assert_eq!(a.take_directory().unwrap(), "/tmp/x");
    assert!(a.take_directory().is_none());
    let twice = vec!["--directory".to_string(), "a".to_string(), "--directory".to_string(), "b".to_string()];
    assert_eq!(Args::from_args(&twice).ok().unwrap().take_directory().unwrap(), "b");
    assert!(matches!(Args::from_args(&vec!["--directory".to_string()]), Err(ArgsError::MissingDirectory)));
    assert!(matches!(Args::from_args(&vec!["-v".to_string()]), Err(ArgsError::UnknownArgument(s)) if s == "-v"));
    let config = Config::new(Some("d".to_string()));
    assert_eq!(config.directory().unwrap(), "d");
    assert!(Config::new(None).directory().is_none());
}
