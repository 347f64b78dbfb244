use std::io::Read;
use stirn::gzip::compress_data;
use stirn::libx::strict::route::content_type_of;
use stirn::libx::strict::{handle_strict, Route, StrictServer};
use stirn::libx::{not_found_response, resolve_endpoint, typed_response, Request, Server};
use stirn::utils::response::{Built, ResponseBuilder};

fn request(endpoint: &str, headers: &[&str]) -> Request {
    Request {
        method: "GET".to_string(),
        endpoint: endpoint.to_string(),
        protocol: "HTTP/1.1".to_string(),
        headers: headers.iter().map(|s| s.to_string()).collect(),
    }
}

fn gunzip(data: &[u8]) -> Vec<u8> {
    let mut out = Vec::new();
    flate2::read::GzDecoder::new(data).read_to_end(&mut out).unwrap();
    out
}

#[test]
fn compressed_data_is_a_gzip_stream_of_the_input() {
    let data = b"hello hello hello hello".to_vec();
    let z = compress_data(&data);
    assert_ne!(z, data);
    assert_eq!(&z[..10], &[0x1f, 0x8b, 8, 0, 0, 0, 0, 0, 0, 255]);
    assert_eq!(&z[z.len() - 4..], &(data.len() as u32).to_le_bytes());
    assert_eq!(gunzip(&z), data);
}

#[test]
fn static_server_answers_with_the_file() {
    assert_eq!(resolve_endpoint("/"), "/index.html");
    assert_eq!(resolve_endpoint("/a.css"), "/a.css");
    let site = Server { name: "s".to_string(), url: "u".to_string(), port: 8080, dir: "www".to_string() };
    assert_eq!(site.file_path("/index.html"), "www//index.html");
    let r = Server::handle("/index.html", Some("<p>hi</p>".to_string()));
    assert_eq!(r.headers, "HTTP/1.1 200 OK\r\nContent-Length: 9\r\n\r\n");
    assert_eq!(r.body, b"<p>hi</p>".to_vec());
    let r = Server::handle("/missing", None);
    assert_eq!(r.headers, "HTTP/1.1 404 Not Found\r\n\r\npage not found: /missing");
    assert!(r.body.is_empty());
}

#[test]
fn not_found_answer() {
    let r = not_found_response("/x");
    assert_eq!(r.headers, "HTTP/1.1 404 Not Found\r\n\r\npage not found: /x");
    assert!(r.body.is_empty());
}

#[test]
fn typed_answer_compresses_on_request() {
    let r = typed_response("text/plain", b"abc".to_vec(), true);
    assert!(r.headers.starts_with("HTTP/1.1 200 OK\r\nContent-Type: text/plain\r\nContent-Encoding: gzip\r\nContent-Length: "));
    assert!(r.headers.ends_with(&format!("{}\r\n\r\n", r.body.len())));
    assert_eq!(gunzip(&r.body), b"abc".to_vec());
}

#[test]
fn strict_routes() {
    let routes = vec![
        Route { endpoint: "/".to_string(), is_file: true, file: "index.html".to_string() },
        Route { endpoint: "/api".to_string(), is_file: false, file: "function".to_string() },
        Route { endpoint: "/api".to_string(), is_file: true, file: "other.json".to_string() },
    ];
    let server = StrictServer { port: 80, routes: routes.clone(), error_page: routes[0].clone() };
    assert_eq!(handle_strict(&server.routes, &request("/api", &[])), Some(1));
    assert_eq!(handle_strict(&server.routes, &request("/none", &[])), None);
    assert_eq!(routes[1].get_page(), "files//api");
    let r = routes[1].clone().respond(&request("/api", &[]), "{}".to_string());
    assert_eq!(r.headers, "HTTP/1.1 200 OK\r\nContent-Type: text/html\r\nContent-Length: 2\r\n\r\n");
    let r = routes[0].clone().respond(&request("/", &["Accept-Encoding: gzip"]), "page".to_string());
    assert_eq!(
        r.headers,
        format!("HTTP/1.1 200 OK\r\nContent-Type: text/html\r\nContent-Encoding: gzip\r\nContent-Length: {}\r\n\r\n", r.body.len())
    );
    assert_eq!(gunzip(&r.body), b"page".to_vec());
}

#[test]
fn strict_content_types() {
    assert_eq!(content_type_of("css"), "text/css");
    assert_eq!(content_type_of("jpeg"), "image/jpeg");
    assert_eq!(content_type_of("function"), "text/html");
    assert_eq!(content_type_of("rshtml"), "text/plain");
}

fn builder(endpoint: &str, gz: bool) -> ResponseBuilder {
    ResponseBuilder {
        dir: "site".to_string(),
        endpoint: endpoint.to_string(),
        is_gzip: gz,
        content_type: "text/html".to_string(),
        status: "HTTP/1.1 200 OK\r\n".to_string(),
    }
}

#[test]
fn builder_answers_with_the_file() {
    let b = builder("/index.html", false);
    assert_eq!(b.file_path(), Some("site//index.html".to_string()));
    match b.build(Some(b"hello".to_vec())) {
        Built::Ready(r) => {
            assert_eq!(r.headers, "HTTP/1.1 200 OK\r\nContent-Type: text/html\r\nContent-Length: 5\r\n\r\n");
            assert_eq!(r.body, b"hello".to_vec());
        }
        Built::Retry(_) => panic!("expected an answer"),
    }
    match builder("/index.html", true).build(Some(b"hello".to_vec())) {
        Built::Ready(r) => {
            assert_eq!(
                r.headers,
                format!("HTTP/1.1 200 OK\r\nContent-Type: text/html\r\nContent-Length: {}\r\nContent-Encoding: gzip\r\n\r\n", r.body.len())
            );
            assert_eq!(gunzip(&r.body), b"hello".to_vec());
        }
        Built::Retry(_) => panic!("expected an answer"),
    }
}

#[test]
fn builder_falls_back_to_the_404_page() {
    match builder("/gone", true).build(None) {
        Built::Retry(next) => {
            assert_eq!(next.endpoint, "404.html");
            assert_eq!(next.status, "HTTP/1.1 404 Not Found\r\n");
            assert_eq!(next.dir, "site");
            assert!(next.is_gzip);
            assert_eq!(next.file_path(), Some("site/404.html".to_string()));
        }
        Built::Ready(_) => panic!("expected a retry"),
    }
}

#[test]
fn builder_error_page() {
    let b = builder("/500pls", false);
    assert_eq!(b.file_path(), None);
    match b.build(None) {
        Built::Ready(r) => {
            assert_eq!(r.headers, "HTTP/1.1 500 Internal Server Error\r\nContent-Type: text/html\r\nContent-Length: 25\r\n\r\n");
            assert_eq!(r.body, b"500 internal server error".to_vec());
        }
        Built::Retry(_) => panic!("expected the error page"),
    }
    let r = builder("/x", false).error_500();
    assert_eq!(r.body.len(), 25);
}
