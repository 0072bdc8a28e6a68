use corekit::http::headers::Headers;
use corekit::http::request::{
    parse_request_line, process_headers_line, process_req_line, HttpRequest, Method, Resource,
    Version,
};

#[test]
fn test_method_from() {
    let m: Method = Method::from("GET");
    assert_eq!(m, Method::Get);
}

#[test]
fn test_version_from() {
    let v: Version = Version::from("HTTP/1.0");
    assert_eq!(v, Version::V1_0);
}

#[test]
fn test_read_http() {
    let s: String = String::from("GET /greeting HTTP/1.1\r\nHost:localhost:8080\r\nUser-Agent:curl/7.64.1\r\nAccept:*/*\r\n\r\n");
    let mut headers = Headers::new();
    headers.insert("Host".into(), "localhost".into());
    headers.insert("Accept".into(), "*/*".into());
    headers.insert("User-Agent".into(), "curl/7.64.1".into());
    let req: HttpRequest = s.into();

    assert_eq!(Method::Get, req.method);
    assert_eq!(Version::V1_1, req.version);
    assert_eq!(Resource::Path("/greeting".to_string()), req.resource);
    assert_eq!(headers, req.headers);
    assert_eq!("", req.msg_body);
}

#[test]
fn methods_and_versions() {
    assert_eq!(Method::from("POST"), Method::Post);
    assert_eq!(Method::from("get"), Method::Uninitialized);
    assert_eq!(Method::from(""), Method::Uninitialized);
    assert_eq!(Version::from("HTTP/1.1"), Version::V1_1);
    assert_eq!(Version::from("HTTP/2"), Version::Uninitialized);
}

#[test]
fn request_line_words() {
    let (m, r, v) = process_req_line("  POST   /a/b\tHTTP/1.0  trailing");
    assert_eq!(m, Method::Post);
    assert_eq!(r, Resource::Path("/a/b".to_string()));
    assert_eq!(v, Version::V1_0);
    assert_eq!(parse_request_line("GET /"), None);
    assert_eq!(parse_request_line(""), None);
    assert_eq!(
        parse_request_line("a\u{3000}b\u{a0}c"),
        Some((Method::Uninitialized, Resource::Path("b".to_string()), Version::Uninitialized))
    );
}

#[test]
fn header_line_parts() {
    assert_eq!(process_headers_line("Host:localhost:8080"), ("Host".to_string(), "localhost".to_string()));
    assert_eq!(process_headers_line("Accept: */*"), ("Accept".to_string(), " */*".to_string()));
    assert_eq!(process_headers_line("nocolon"), ("nocolon".to_string(), ":".to_string()));
    assert_eq!(process_headers_line(""), ("".to_string(), ":".to_string()));
    assert_eq!(process_headers_line("k:"), ("k".to_string(), "".to_string()));
    assert_eq!(process_headers_line(":v"), ("".to_string(), "v".to_string()));
}

#[test]
fn body_and_later_lines_win() {
    let req = HttpRequest::parse("POST /x HTTP/1.0\nA:1\nA:2\n\nfirst\nsecond");
    assert_eq!(req.method, Method::Post);
    assert_eq!(req.version, Version::V1_0);
    assert_eq!(req.headers.len(), 1);
    assert_eq!(req.headers.get("A"), Some("2"));
    assert_eq!(req.headers.get("B"), None);
    assert_eq!(req.msg_body, "second");
}

#[test]
fn odd_lines() {
    let req = HttpRequest::parse("HTTP\r\nbody\r");
    assert_eq!(req.method, Method::Uninitialized);
    assert_eq!(req.version, Version::Uninitialized);
    assert_eq!(req.resource, Resource::Path(String::new()));
    assert!(req.headers.is_empty());
    assert_eq!(req.msg_body, "body\r");
    let req = HttpRequest::parse("");
    assert_eq!(req.msg_body, "");
    let req = HttpRequest::parse("\r\n\r\n");
    assert_eq!(req.msg_body, "");
    let req = HttpRequest::parse("\r\r\n");
    assert_eq!(req.msg_body, "\r");
}

#[test]
fn parse_agrees_with_std_lines() {
    let text = "GET /a HTTP/1.1\r\nK:v\r\n\r\nline one\nline two\r\n";
    let req = HttpRequest::parse(text);
    assert_eq!(req.msg_body, text.lines().last().unwrap());
}

#[test]
fn headers_equality_ignores_order() {
    let mut a = Headers::new();
    a.insert("x".into(), "1".into());
    a.insert("y".into(), "2".into());
    let mut b = Headers::new();
    b.insert("y".into(), "2".into());
    b.insert("x".into(), "1".into());
    assert_eq!(a, b);
    assert_eq!(a.field(0), ("x", "1"));
    assert_eq!(b.field(0), ("y", "2"));
    b.insert("x".into(), "3".into());
    assert_ne!(a, b);
    b.insert("x".into(), "1".into());
    b.insert("z".into(), "".into());
    assert_ne!(a, b);
    assert_ne!(b, a);
}
