use stirn::config::{Config, MimeTypes};
use stirn::pages::{get_name, index};
use stirn::utils::request::Request;
use stirn::utils::{dispatch, Dispatch, Method, Server};
use stirn::xom_http::rapid::Route as RapidRoute;
use stirn::xom_http::utils::stream::handle;
use stirn::xom_http::utils::Route as TemplateRoute;
use stirn::xom_http::{favicon_response, icon_path, icon_response, page_response, plan, Plan};

fn site_request(endpoint: &str, headers: &[&str]) -> Request {
    Request {
        method: Method::GET,
        endpoint: endpoint.to_string(),
        https: false,
        headers: headers.iter().map(|s| s.to_string()).collect(),
        error: String::new(),
    }
}

fn request(endpoint: &str, headers: &[&str]) -> stirn::libx::Request {
    stirn::libx::Request {
        method: "GET".to_string(),
        endpoint: endpoint.to_string(),
        protocol: "HTTP/1.1".to_string(),
        headers: headers.iter().map(|s| s.to_string()).collect(),
    }
}

fn server(host: &str, port: u16, dir: &str) -> Server {
    Server { name: String::new(), hostname: host.to_string(), port, dir: dir.to_string() }
}

#[test]
fn index_page_commands() {
    let v = index();
    assert_eq!(v.len(), 2);
    assert_eq!((v[0].key.as_str(), v[0].val.as_str()), ("key", "val"));
    assert_eq!((v[1].key.as_str(), v[1].val.as_str()), ("name", "yasir"));
    assert_eq!(get_name(), "yasir");
}

#[test]
fn requests_go_to_the_site_named_by_host() {
    let servers = vec![server("a.com", 0, "www/a"), server("b.com", 9000, ""), server("a.com", 1, "")];
    let mut r = site_request("/", &["Host: a.com"]);
    assert!(matches!(dispatch(&mut r, &servers), Dispatch::Static(0)));
    let mut r = site_request("/", &["Host: b.com"]);
    assert!(matches!(dispatch(&mut r, &servers), Dispatch::Forward(9000)));
    let mut r = site_request("/", &["Host: c.com"]);
    assert!(matches!(dispatch(&mut r, &servers), Dispatch::Unserved));
    let mut r = site_request("/", &[]);
    match dispatch(&mut r, &servers) {
        Dispatch::MissingHost(b) => {
            assert_eq!(b.status, "HTTP/1.1 500 Internal Server Error\r\n");
            assert_eq!(b.content_type, "text/html");
        }
        _ => panic!("expected a missing host"),
    }
}

#[test]
fn site_answer_is_prepared_from_the_configuration() {
    let mut config = Config::new();
    config.mimetypes = MimeTypes::builtin();
    config.default_mimetype = "application/octet-stream".to_string();
    let mut r = site_request("/", &["Accept-Encoding: gzip"]);
    let b = r.handle("www".to_string(), &config);
    assert_eq!(b.endpoint, "/index.html");
    assert_eq!(b.content_type, "text/html");
    assert!(b.is_gzip);
    assert_eq!(b.status, "HTTP/1.1 200 OK\r\n");
    let mut r = site_request("/data.unknown", &[]);
    let b = r.handle("www".to_string(), &config);
    assert_eq!(b.content_type, "application/octet-stream");
    assert!(!b.is_gzip);
    let mut r = site_request("/a.css", &["Accept-Encoding"]);
    let b = r.handle("www".to_string(), &config);
    assert_eq!(b.content_type, "text/css");
    assert_eq!(b.status, "HTTP/1.1 500 Internal Server Error\r\n");
    assert_eq!(r.error, "broken header value: Accept-Encoding");
}

#[test]
fn template_server_plans() {
    let routes = vec![
        RapidRoute { endpoint: "/".to_string(), layout: String::new(), file: "i.html".to_string() },
        RapidRoute { endpoint: "/style.css".to_string(), layout: String::new(), file: "s.css".to_string() },
        RapidRoute { endpoint: "/logo.ico".to_string(), layout: String::new(), file: "".to_string() },
    ];
    assert!(matches!(plan(&routes, &request("/", &[])), Plan::Page { route: 0, css: false }));
    assert!(matches!(plan(&routes, &request("/style.css", &[])), Plan::Page { route: 1, css: true }));
    assert!(matches!(plan(&routes, &request("/logo.ico", &[])), Plan::Icon { route: 2 }));
    assert!(matches!(plan(&routes, &request("/favicon.ico", &[])), Plan::Favicon));
    assert!(matches!(plan(&routes, &request("/nothing", &[])), Plan::NotFound));
    assert!(matches!(plan(&Vec::new(), &request("/favicon.ico", &[])), Plan::NotFound));
}

#[test]
fn template_server_answers() {
    let r = page_response(&request("/", &[]), false, "<p>x</p>".to_string());
    assert_eq!(r.headers, "HTTP/1.1 200 OK\r\nContent-Type: text/html\r\nContent-Length: 8\r\n\r\n");
    let r = icon_response(&request("/a.ico", &[]), vec![1, 2, 3]);
    assert_eq!(r.headers, "HTTP/1.1 200 OK\r\nContent-Type: image/x-icon\r\nContent-Length: 3\r\n\r\n");
    assert_eq!(icon_path(&request("/a.ico", &[])), "files/a.ico");
    let r = favicon_response(Some(vec![9; 4]));
    assert_eq!(r.headers, "HTTP/1.1 200 OK\r\nContent-Type: image/x-icon\r\nContent-Length: 4\r\n\r\n");
    let r = favicon_response(None);
    assert_eq!(r.headers, "HTTP/1.1 404 Not Found\r\n\r\n");
    assert!(r.body.is_empty());
}

#[test]
fn template_routes_are_chosen_by_endpoint() {
    let routes = vec![
        TemplateRoute { endpoint: "/a".to_string(), layout: String::new(), file: "a".to_string(), commands: vec![] },
        TemplateRoute { endpoint: "/b".to_string(), layout: String::new(), file: "b".to_string(), commands: vec![] },
    ];
    assert_eq!(handle(&routes, &request("/b", &[])), Some(1));
    assert_eq!(handle(&routes, &request("/c", &[])), None);
}
