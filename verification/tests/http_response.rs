use corekit::http::headers::Headers;
use corekit::http::response::HttpResponse;

#[test]
fn test_response_struct_creation_200() {
    let response_actual = HttpResponse::new("200", None, Some("xxxx".into()));
    let response_expected = HttpResponse {
        version: "HTTP/1.1",
        status_code: "200",
        status_text: "OK",
        headers: {
            let mut h = Headers::new();
            h.insert("Content-Type".into(), "text/html".into());
            Some(h)
        },
        body: Some("xxxx".into()),
    };

    assert_eq!(response_actual, response_expected);
}

#[test]
fn test_response_struct_creation_404() {
    let response_actual = HttpResponse::new("404", None, Some("xxxx".into()));
    let response_expected = HttpResponse {
        version: "HTTP/1.1",
        status_code: "404",
        status_text: "Not Found",
        headers: {
            let mut h = Headers::new();
            h.insert("Content-Type".into(), "text/html".into());
            Some(h)
        },
        body: Some("xxxx".into()),
    };

    assert_eq!(response_actual, response_expected);
}

#[test]
fn test_http_response_creation() {
    let response_expected = HttpResponse {
        version: "HTTP/1.1",
        status_code: "404",
        status_text: "Not Found",
        headers: {
            let mut h = Headers::new();
            h.insert("Content-Type".into(), "text/html".into());
            Some(h)
        },
        body: Some("xxxx".into()),
    };
    let http_string: String = response_expected.into();
    let actual_string =
        "HTTP/1.1 404 Not Found\r\nContent-Type: text/html\r\nContent-length: 4\r\n\r\nxxxx";
    assert_eq!(http_string, actual_string);
}

#[test]
fn status_texts() {
    assert_eq!(HttpResponse::new("200", None, None).status_text(), "OK");
    assert_eq!(HttpResponse::new("400", None, None).status_text(), "Bad Request");
    assert_eq!(HttpResponse::new("404", None, None).status_text(), "Not Found");
    assert_eq!(HttpResponse::new("500", None, None).status_text(), "Internal Server Error");
    assert_eq!(HttpResponse::new("418", None, None).status_text(), "Not Found");
    assert_eq!(HttpResponse::new("418", None, None).status_code(), "418");
    assert_eq!(HttpResponse::new("418", None, None).version(), "HTTP/1.1");
}

#[test]
fn default_response() {
    let r = HttpResponse::default();
    assert_eq!(r.version, "HTTP/1.1");
    assert_eq!(r.status_code, "200");
    assert_eq!(r.status_text, "OK");
    assert_eq!(r.headers, None);
    assert_eq!(r.body, None);
    assert_eq!(r.body(), "");
    assert_eq!(r.headers(), "");
    assert_eq!(r.to_text(), "HTTP/1.1 200 OK\r\nContent-length: 0\r\n\r\n");
}

#[test]
fn given_headers_are_kept_in_order() {
    let mut h = Headers::new();
    h.insert("B".into(), "2".into());
    h.insert("A".into(), "1".into());
    h.insert("B".into(), "3".into());
    let r = HttpResponse::new("500", Some(h), Some("héllo wörld!".into()));
    assert_eq!(r.headers(), "B: 3\r\nA: 1\r\n");
    assert_eq!(r.body(), "héllo wörld!");
    assert_eq!(
        r.to_text(),
        "HTTP/1.1 500 Internal Server Error\r\nB: 3\r\nA: 1\r\nContent-length: 14\r\n\r\nhéllo wörld!"
    );
}

#[test]
fn send_response_appends_the_bytes() {
    let r = HttpResponse::new("200", None, Some("0123456789".into()));
    let mut out: Vec<u8> = vec![b'>'];
    r.send_response(&mut out);
    assert_eq!(
        out,
        b">HTTP/1.1 200 OK\r\nContent-Type: text/html\r\nContent-length: 10\r\n\r\n0123456789".to_vec()
    );
}

#[test]
fn long_bodies_have_their_length_in_decimal() {
    let body = "x".repeat(12345);
    let r = HttpResponse::new("200", None, Some(body.clone()));
    let text = r.to_text();
    assert!(text.contains("\r\nContent-length: 12345\r\n\r\n"));
    assert!(text.ends_with(&body));
}
