use stirn::config::{
    get_config, get_default_mimetype, get_mimetypes, get_port, get_server, get_servers, Config,
    ConfigError, JsonObject, JsonValue, MimeTypes,
};

fn obj(members: Vec<(&str, JsonValue)>) -> JsonObject {
    JsonObject { members: members.into_iter().map(|(k, v)| (k.to_string(), v)).collect() }
}

fn s(v: &str) -> JsonValue {
    JsonValue::Str(v.to_string())
}

fn site(host: &str) -> JsonValue {
    JsonValue::Object(obj(vec![("hostname", s(host))]))
}

#[test]
fn port_defaults_to_80() {
    assert_eq!(get_port(&obj(vec![])), Ok(Some(80)));
    assert_eq!(get_port(&obj(vec![("port", JsonValue::Number(Some(8080)))])), Ok(Some(8080)));
    assert_eq!(get_port(&obj(vec![("port", s("80"))])), Err(ConfigError::PortNotNumber));
    assert_eq!(get_port(&obj(vec![("port", JsonValue::Number(None))])), Err(ConfigError::PortNotU16));
}

#[test]
fn a_site_needs_a_hostname() {
    let srv = get_server(&obj(vec![("hostname", s("a.com")), ("dir", s("www"))])).unwrap();
    assert_eq!(srv.name, "");
    assert_eq!(srv.hostname, "a.com");
    assert_eq!(srv.port, 0);
    assert_eq!(srv.dir, "www");
    assert!(matches!(get_server(&obj(vec![("name", s("x"))])), Err(ConfigError::MissingHostname)));
    assert!(matches!(get_server(&obj(vec![("hostname", JsonValue::Bool(true))])), Err(ConfigError::HostnameNotString)));
    assert!(matches!(get_server(&obj(vec![("name", JsonValue::Null)])), Err(ConfigError::ServerNameNotString)));
    assert!(matches!(
        get_server(&obj(vec![("hostname", s("a")), ("port", s("x"))])),
        Err(ConfigError::ServerPortNotU16)
    ));
    assert!(matches!(
        get_server(&obj(vec![("hostname", s("a")), ("dir", JsonValue::Number(Some(1)))])),
        Err(ConfigError::ServerDirNotString)
    ));
}

#[test]
fn sites_must_be_an_array_of_objects() {
    let ok = get_servers(&obj(vec![("servers", JsonValue::Array(vec![site("a"), site("b")]))])).unwrap();
    assert_eq!(ok.len(), 2);
    assert_eq!(ok[1].hostname, "b");
    assert!(matches!(get_servers(&obj(vec![])), Err(ConfigError::NoServers)));
    assert!(matches!(get_servers(&obj(vec![("servers", site("a"))])), Err(ConfigError::ServersNotArray)));
    assert!(matches!(
        get_servers(&obj(vec![("servers", JsonValue::Array(vec![site("a"), s("b")]))])),
        Err(ConfigError::ServerNotObject)
    ));
}

#[test]
fn builtin_mimetypes() {
    let t = MimeTypes::builtin();
    assert_eq!(t.entries.len(), 71);
    assert_eq!(t.get("html").map(|m| m.as_str()), Some("text/html"));
    assert_eq!(t.get("woff2").map(|m| m.as_str()), Some("font/woff2"));
    assert_eq!(t.get("rshtml"), None);
}

#[test]
fn configured_mimetypes_update_the_table() {
    let t = get_mimetypes(&obj(vec![(
        "mimetypes",
        JsonValue::Object(obj(vec![("html", s("text/x-html")), ("rshtml", s("text/html"))])),
    )]))
    .unwrap();
    assert_eq!(t.entries.len(), 72);
    assert_eq!(t.get("html").map(|m| m.as_str()), Some("text/x-html"));
    assert_eq!(t.get("rshtml").map(|m| m.as_str()), Some("text/html"));
    assert_eq!(t.get("css").map(|m| m.as_str()), Some("text/css"));
    assert!(matches!(get_mimetypes(&obj(vec![("mimetypes", s("x"))])), Err(ConfigError::MimetypesNotObject)));
    assert!(matches!(
        get_mimetypes(&obj(vec![("mimetypes", JsonValue::Object(obj(vec![("a", JsonValue::Null)])))])),
        Err(ConfigError::MimetypeNotString)
    ));
}

#[test]
fn insert_then_get() {
    let mut t = MimeTypes::new();
    t.insert("a".to_string(), "x".to_string());
    t.insert("b".to_string(), "y".to_string());
    t.insert("a".to_string(), "z".to_string());
    assert_eq!(t.entries.len(), 2);
    assert_eq!(t.get("a").map(|m| m.as_str()), Some("z"));
    assert_eq!(t.get("b").map(|m| m.as_str()), Some("y"));
}

#[test]
fn default_mimetype() {
    assert_eq!(get_default_mimetype(&obj(vec![])).unwrap(), "application/octet-stream");
    assert_eq!(get_default_mimetype(&obj(vec![("default-mimetype", s("text/plain"))])).unwrap(), "text/plain");
    assert!(matches!(
        get_default_mimetype(&obj(vec![("default-mimetype", JsonValue::Null)])),
        Err(ConfigError::DefaultMimetypeNotString)
    ));
}

#[test]
fn whole_configuration() {
    let c = get_config(&obj(vec![
        ("port", JsonValue::Number(Some(3000))),
        ("servers", JsonValue::Array(vec![site("a.com")])),
    ]))
    .unwrap();
    assert_eq!(c.port, Some(3000));
    assert_eq!(c.servers.len(), 1);
    assert_eq!(c.default_mimetype, "application/octet-stream");
    assert_eq!(c.mimetypes.entries.len(), 71);
    let e = get_config(&obj(vec![("port", s("x"))])).err().unwrap();
    assert_eq!(e, ConfigError::PortNotNumber);
    assert_eq!(e.message(), "Port must be a number");
    assert_eq!(get_config(&obj(vec![])).err(), Some(ConfigError::NoServers));
    let empty = Config::new();
    assert_eq!(empty.port, None);
    assert!(empty.servers.is_empty());
}
