use stirn::libx::Request;
use stirn::utils::request::Request as SiteRequest;
use stirn::utils::{stream_read, Method};

fn buffer(text: &str) -> [u8; 1024] {
    let mut b = [0u8; 1024];
    b[..text.len()].copy_from_slice(text.as_bytes());
    b
}

#[test]
fn request_line_and_headers_are_read() {
    let b = buffer("GET /index.html HTTP/1.1\r\nHost: example.com\r\nAccept-Encoding: gzip\r\n\r\n");
    let r = Request::read(&b).expect("a request");
    assert_eq!(r.method, "GET");
    assert_eq!(r.endpoint, "/index.html");
    assert_eq!(r.protocol, "HTTP/1.1");
    assert_eq!(r.headers.len(), 4);
    assert_eq!(r.headers[0], "Host: example.com");
    assert_eq!(r.headers[1], "Accept-Encoding: gzip");
    assert_eq!(r.headers[2], "");
    assert!(r.headers[3].chars().all(|c| c == '\0'));
    assert_eq!(r.get_header("Host"), Some("example.com"));
}

#[test]
fn short_request_line_is_refused() {
    assert!(Request::read(&buffer("GET /\r\n\r\n")).is_none());
    assert!(Request::parse("").is_none());
    assert!(Request::parse("GET / HTTP/1.1").is_some());
}

#[test]
fn site_request_maps_the_method() {
    let r = stream_read(&buffer("POST /form HTTP/1.1\r\nHost: a\r\n\r\n")).expect("a request");
    assert!(r.method == Method::POST);
    assert_eq!(r.endpoint, "/form");
    assert!(!r.https);
    assert_eq!(r.error, "");
    assert_eq!(r.headers[0], "Host: a");
    let r = stream_read(&buffer("DELETE /x")).expect("a request");
    assert!(r.method == Method::OTHER);
    assert!(stream_read(&buffer("GET")).is_none());
}

#[test]
fn broken_header_is_recorded_on_the_site_request() {
    let mut r = SiteRequest {
        method: Method::GET,
        endpoint: "/".to_string(),
        https: false,
        headers: vec!["Accept-Encoding".to_string(), "Host: a".to_string()],
        error: String::new(),
    };
    assert_eq!(r.get_header("Host"), Some("a".to_string()));
    assert_eq!(r.error, "");
    assert!(!r.accepts_gzip());
    assert_eq!(r.error, "broken header value: Accept-Encoding");
}
