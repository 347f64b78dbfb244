use stirn::libx::Request;
use stirn::xom_http::rapid;
use stirn::xom_http::utils::{process_commands, Route, TemplateError, XomElement};

fn request(headers: &[&str]) -> Request {
    Request {
        method: "GET".to_string(),
        endpoint: "/".to_string(),
        protocol: "HTTP/1.1".to_string(),
        headers: headers.iter().map(|s| s.to_string()).collect(),
    }
}

fn el(k: &str, v: &str) -> XomElement {
    XomElement { key: k.to_string(), val: v.to_string() }
}

fn pairs(v: &[XomElement]) -> Vec<(String, String)> {
    v.iter().map(|e| (e.key.clone(), e.val.clone())).collect()
}

fn render(text: &str, next: &str, req: &Request, cmds: Vec<XomElement>) -> (String, Vec<(String, String)>) {
    let (out, c) = process_commands(text.to_string(), next.to_string(), req, cmds).expect("renders");
    (out, pairs(&c))
}

#[test]
fn plain_text_is_copied() {
    let (out, c) = render("<p>hello</p>", "", &request(&[]), vec![el("a", "b")]);
    assert_eq!(out, "<p>hello</p>");
    assert_eq!(c, vec![("a".to_string(), "b".to_string())]);
}

#[test]
fn double_at_is_one_at() {
    let (out, _) = render("mail me@@example.com", "", &request(&[]), vec![]);
    assert_eq!(out, "mail me@example.com");
}

#[test]
fn definition_then_get() {
    let (out, c) = render("@title(Home) <h1>@get(title) </h1>", "", &request(&[]), vec![]);
    assert_eq!(out, "<h1>Home</h1>");
    assert_eq!(c, vec![("title".to_string(), "Home".to_string())]);
}

#[test]
fn the_character_after_an_element_is_dropped() {
    let (out, _) = render("@t(x)<b>@get(t)</b>", "", &request(&[]), vec![]);
    assert_eq!(out, "b>x/b>");
}

#[test]
fn key_and_value_are_trimmed() {
    let (out, c) = render("@ name ( Ann ) hi @get( name ) !", "", &request(&[]), vec![]);
    assert_eq!(out, "hi Ann!");
    assert_eq!(c, vec![("name".to_string(), "Ann".to_string())]);
}

#[test]
fn an_element_at_the_very_end_is_not_applied() {
    let (out, c) = render("x@k(v)", "", &request(&[]), vec![]);
    assert_eq!(out, "x");
    assert!(c.is_empty());
}

#[test]
fn redefinition_updates_every_command_of_that_name() {
    let (out, c) = render("@t(c) @get(t) ", "", &request(&[]), vec![el("t", "a"), el("u", "z"), el("t", "b")]);
    assert_eq!(out, "c");
    assert_eq!(
        c,
        vec![
            ("t".to_string(), "c".to_string()),
            ("u".to_string(), "z".to_string()),
            ("t".to_string(), "c".to_string())
        ]
    );
}

#[test]
fn get_of_an_unknown_command_inserts_nothing() {
    let (out, _) = render("[@get(nothing) ]", "", &request(&[]), vec![]);
    assert_eq!(out, "[]");
}

#[test]
fn callbody_renders_the_page_inside_the_layout() {
    let (out, c) = render(
        "<body>@callbody() </body>@get(x) ",
        "page@x(1) text",
        &request(&[]),
        vec![],
    );
    assert_eq!(out, "<body>pagetext</body>1");
    assert_eq!(c, vec![("x".to_string(), "1".to_string())]);
}

#[test]
fn getheader_inserts_the_header_value() {
    let (out, _) = render("UA=@getheader(User-Agent) .", "", &request(&["User-Agent: curl/8"]), vec![]);
    assert_eq!(out, "UA=curl/8.");
    let (out, _) = render("UA=@getheader(User-Agent) .", "", &request(&[]), vec![]);
    assert_eq!(out, "UA=.");
}

#[test]
fn a_broken_header_stops_rendering() {
    let r = process_commands("@getheader(User-Agent) ".to_string(), String::new(), &request(&["User-Agent"]), vec![]);
    assert!(matches!(r, Err(TemplateError::BrokenHeader)));
}

#[test]
fn first_engine_knows_no_commands() {
    let req = request(&["Host: h"]);
    let out = rapid::process_commands("@t(1) [@get(t) ]@getheader(Host) .".to_string(), String::new(), &req)
        .expect("renders");
    assert_eq!(out, "[]h.");
    let route = rapid::Route { endpoint: "/".to_string(), layout: "l.html".to_string(), file: "p.html".to_string() };
    let out = rapid::initialize(&route, &req, "PAGE".to_string(), "<@callbody() >".to_string()).expect("renders");
    assert_eq!(out, "<PAGE>");
}

#[test]
fn element_constructors() {
    let e = XomElement::new();
    assert_eq!(e.key, "");
    assert_eq!(e.val, "");
    assert!(XomElement::new_vec().is_empty());
}

#[test]
fn template_route_is_rendered_in_its_layout() {
    let route = Route {
        endpoint: "/".to_string(),
        layout: "layout.rshtml".to_string(),
        file: "index.rshtml".to_string(),
        commands: vec![],
    };
    assert!(route.is_template());
    assert_eq!(route.file_path(), "files/index.rshtml");
    assert_eq!(route.layout_path(), Some("files/layout.rshtml".to_string()));
    let resp = route
        .init(&request(&[]), vec![el("who", "you")], "hi @get(who) ".to_string(), "[@callbody() ]".to_string())
        .expect("renders");
    assert_eq!(resp.body, b"[hi you]".to_vec());
    assert_eq!(resp.headers, "HTTP/1.1 200 OK\r\nContent-Type: text/html\r\nContent-Length: 8\r\n\r\n");
}

#[test]
fn other_files_are_sent_as_they_are() {
    let route = Route { endpoint: "/s".to_string(), layout: String::new(), file: "site.css".to_string(), commands: vec![] };
    assert!(!route.is_template());
    assert_eq!(route.layout_path(), None);
    let resp = route.init(&request(&[]), vec![], "@x(y) body".to_string(), String::new()).expect("sent");
    assert_eq!(resp.body, b"@x(y) body".to_vec());
    assert_eq!(resp.headers, "HTTP/1.1 200 OK\r\nContent-Type: text/css\r\nContent-Length: 10\r\n\r\n");
}

#[test]
fn command_keys_stay_distinct_and_in_order() {
    let req = request(&[]);
    let (_, c) = render("@b(3) @c(4) @a( 5 ) .", "<@c(6) >", &req, vec![el("a", "1"), el("b", "2")]);
    assert_eq!(
        c,
        vec![
            ("a".to_string(), "5".to_string()),
            ("b".to_string(), "3".to_string()),
            ("c".to_string(), "4".to_string()),
        ]
    );
    let (_, c) = render("<@callbody() >", "@d(7) @a(8) .", &req, vec![el("a", "1")]);
    assert_eq!(c, vec![("a".to_string(), "8".to_string()), ("d".to_string(), "7".to_string())]);
}

#[test]
fn a_defined_command_is_read_back() {
    let (out, c) = render("x@ k ( v )!@get(k )?y", "", &request(&[]), vec![]);
    assert_eq!(out, "xvy");
    assert_eq!(c, vec![("k".to_string(), "v".to_string())]);
}
