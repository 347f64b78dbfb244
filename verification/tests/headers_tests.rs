use stirn::headers::{lookup_header, HeaderLookup};
use stirn::libx::{get_header, Request};

fn lines(v: &[&str]) -> Vec<String> {
    v.iter().map(|s| s.to_string()).collect()
}

fn request(headers: &[&str]) -> Request {
    Request {
        method: "GET".to_string(),
        endpoint: "/".to_string(),
        protocol: "HTTP/1.1".to_string(),
        headers: lines(headers),
    }
}

#[test]
fn first_line_naming_the_header_gives_its_value() {
    let h = lines(&["Host: a.com", "Accept: */*", "Host: b.com"]);
    assert_eq!(get_header(&h, "Host"), Some("a.com".to_string()));
    assert_eq!(get_header(&h, "Accept"), Some("*/*".to_string()));
    assert_eq!(get_header(&h, "Cookie"), None);
}

#[test]
fn value_stops_at_a_further_separator() {
    let h = lines(&["X-Note: a: b"]);
    assert_eq!(get_header(&h, "X-Note"), Some("a".to_string()));
}

#[test]
fn a_line_without_value_is_broken() {
    let h = lines(&["Accept", "Host: a"]);
    match lookup_header(&h, "Accept") {
        HeaderLookup::Broken { line } => assert_eq!(line, 0),
        _ => panic!("expected a broken header"),
    }
    match lookup_header(&h, "Host") {
        HeaderLookup::Found { line, from, to } => {
            assert_eq!(line, 1);
            assert_eq!((from, to), (6, 7));
        }
        _ => panic!("expected the header"),
    }
    assert!(matches!(lookup_header(&h, "Missing"), HeaderLookup::Missing));
}

#[test]
fn request_header_lookup_borrows_the_value() {
    let r = request(&["Host: example.com", "Accept-Encoding: gzip, deflate"]);
    assert_eq!(r.get_header("Host"), Some("example.com"));
    assert_eq!(r.get_header("User-Agent"), None);
    assert!(r.is_gzip_accepted());
    assert!(!request(&["Accept-Encoding: br"]).is_gzip_accepted());
    assert!(!request(&[]).is_gzip_accepted());
}

#[test]
fn rapid_lookup_answers_undefined() {
    let h = lines(&["Host: a"]);
    assert_eq!(stirn::rapid::get_header(&h, "Host"), "a");
    assert_eq!(stirn::rapid::get_header(&h, "User-Agent"), "undefined");
}
