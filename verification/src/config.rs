//! The configuration of the multi-site server (`stirners.json`): the port,
//! the sites, and the mimetypes served by file extension.
//!
//! The configuration file is a JSON object; `JsonValue` holds what the
//! server reads of each JSON value. A number is held as what the JSON
//! library's `as_u16` gives for it (`None` when it is not a `u16`).
use vstd::prelude::*;
use vstd::string::*;
use crate::assoc::{
    lemma_upsert_all_last_wins, lemma_upsert_keeps_others, lemma_upsert_then_lookup, lookup,
    upsert, upsert_all, Entry,
};
use crate::text::{owned, same_text};
use crate::utils::Server;

verus! {

broadcast use vstd::string::group_string_axioms;

/// A JSON value, as far as the configuration reads it.
pub enum JsonValue {
    Null,
    Bool(bool),
    Number(Option<u16>),
    Str(String),
    Array(Vec<JsonValue>),
    Object(JsonObject),
}

/// A JSON object: its members in order.
pub struct JsonObject {
    pub members: Vec<(String, JsonValue)>,
}

/// The mimetype table: extension and mimetype pairs; an extension's
/// mimetype is that of its first pair (`insert` keeps one pair per
/// extension).
pub struct MimeTypes {
    pub entries: Vec<(String, String)>,
}

/// The server's configuration.
pub struct Config {
    pub port: Option<u16>,
    pub servers: Vec<Server>,
    pub mimetypes: MimeTypes,
    pub default_mimetype: String,
}

/// Why a configuration is refused (`message` gives each one's text).
#[derive(Debug, PartialEq, Eq, Structural)]
pub enum ConfigError {
    PortNotNumber,
    PortNotU16,
    ServerNameNotString,
    MissingHostname,
    HostnameNotString,
    ServerPortNotU16,
    ServerDirNotString,
    NoServers,
    ServersNotArray,
    ServerNotObject,
    DefaultMimetypeNotString,
    MimetypesNotObject,
    MimetypeNotString,
}

/// A site as its four fields: name, host name, port, directory.
pub type ServerView = (Seq<char>, Seq<char>, u16, Seq<char>);

/// The site's fields.
pub open spec fn server_view(s: Server) -> ServerView {
    (s.name@, s.hostname@, s.port, s.dir@)
}

/// The sites' fields.
pub open spec fn server_views(s: Seq<Server>) -> Seq<ServerView> {
    s.map_values(|x: Server| server_view(x))
}

/// The table's pairs.
pub open spec fn entry_views(e: Seq<(String, String)>) -> Seq<Entry> {
    e.map_values(|p: (String, String)| (p.0@, p.1@))
}

impl MimeTypes {
    /// The table as extension/mimetype pairs.
    pub open spec fn view(&self) -> Seq<Entry> {
        entry_views(self.entries@)
    }
}

/// The first member named `k`.
pub open spec fn member_from(members: Seq<(String, JsonValue)>, k: Seq<char>) -> Option<JsonValue>
    decreases members.len(),
{
    if members.len() == 0 {
        None
    } else if members[0].0@ == k {
        Some(members[0].1)
    } else {
        member_from(members.drop_first(), k)
    }
}

/// The member of `o` named `k`.
pub open spec fn member(o: JsonObject, k: Seq<char>) -> Option<JsonValue> {
    member_from(o.members@, k)
}

/// What `as_string` gives: the text of a string value.
pub open spec fn string_value(v: JsonValue) -> Option<Seq<char>> {
    match v {
        JsonValue::Str(s) => Some(s@),
        _ => None,
    }
}

/// What `as_u16` gives: a number that is a `u16`.
pub open spec fn u16_value(v: JsonValue) -> Option<u16> {
    match v {
        JsonValue::Number(n) => n,
        _ => None,
    }
}

/// The configured port: 80 when the configuration names none.
pub open spec fn port_of(o: JsonObject) -> Result<Option<u16>, ConfigError> {
    match member(o, "port"@) {
        Some(v) => match v {
            JsonValue::Number(Some(p)) => Ok(Some(p)),
            JsonValue::Number(None) => Err(ConfigError::PortNotU16),
            _ => Err(ConfigError::PortNotNumber),
        },
        None => Ok(Some(80)),
    }
}

/// An optional text member: empty when absent, refused with `e` when not a
/// string.
pub open spec fn text_member(o: JsonObject, k: Seq<char>, e: ConfigError) -> Result<
    Seq<char>,
    ConfigError,
> {
    match member(o, k) {
        Some(v) => match string_value(v) {
            Some(s) => Ok(s),
            None => Err(e),
        },
        None => Ok(seq![]),
    }
}

/// A site described by a JSON object: `name` and `dir` default to empty,
/// `port` to 0, `hostname` is required; the members are checked in that
/// order: name, hostname, port, dir.
pub open spec fn server_of(o: JsonObject) -> Result<ServerView, ConfigError> {
    match text_member(o, "name"@, ConfigError::ServerNameNotString) {
        Err(e) => Err(e),
        Ok(name) => match member(o, "hostname"@) {
            None => Err(ConfigError::MissingHostname),
            Some(h) => match string_value(h) {
                None => Err(ConfigError::HostnameNotString),
                Some(hostname) => {
                    let port = match member(o, "port"@) {
                        Some(p) => match u16_value(p) {
                            Some(n) => Ok(n),
                            None => Err(ConfigError::ServerPortNotU16),
                        },
                        None => Ok(0u16),
                    };
                    match port {
                        Err(e) => Err(e),
                        Ok(port) => match text_member(o, "dir"@, ConfigError::ServerDirNotString) {
                            Err(e) => Err(e),
                            Ok(dir) => Ok((name, hostname, port, dir)),
                        },
                    }
                },
            },
        },
    }
}

/// The sites described by a JSON array, in order; the first element that is
/// not an object, or not a valid site, refuses the list.
pub open spec fn servers_from(items: Seq<JsonValue>) -> Result<Seq<ServerView>, ConfigError>
    decreases items.len(),
{
    if items.len() == 0 {
        Ok(seq![])
    } else {
        match servers_from(items.drop_last()) {
            Err(e) => Err(e),
            Ok(done) => match items.last() {
                JsonValue::Object(o) => match server_of(o) {
                    Ok(s) => Ok(done.push(s)),
                    Err(e) => Err(e),
                },
                _ => Err(ConfigError::ServerNotObject),
            },
        }
    }
}

/// The configured sites: `servers` must be an array of site objects.
pub open spec fn servers_of(o: JsonObject) -> Result<Seq<ServerView>, ConfigError> {
    match member(o, "servers"@) {
        None => Err(ConfigError::NoServers),
        Some(JsonValue::Array(items)) => servers_from(items@),
        Some(_) => Err(ConfigError::ServersNotArray),
    }
}

/// The mimetype for unknown extensions: `application/octet-stream` unless
/// configured.
pub open spec fn default_mimetype_of(o: JsonObject) -> Result<Seq<char>, ConfigError> {
    match member(o, "default-mimetype"@) {
        Some(v) => match string_value(v) {
            Some(s) => Ok(s),
            None => Err(ConfigError::DefaultMimetypeNotString),
        },
        None => Ok("application/octet-stream"@),
    }
}

/// The built-in mimetype table, defined pair by pair.
pub open spec fn builtin_pairs() -> Seq<Entry> {
    seq![
        ("aac"@, "audio/aac"@),
        ("abw"@, "application/x-abiword"@),
        ("apng"@, "image/apng"@),
        ("arc"@, "application/x-freearc"@),
        ("avif"@, "image/avif"@),
        ("avi"@, "video/x-msvideo"@),
        ("bin"@, "application/octet-stream"@),
        ("bmp"@, "image/bmp"@),
        ("bz"@, "application/x-bzip"@),
        ("bz2"@, "application/x-bzip2"@),
        ("c"@, "text/plain"@),
        ("cab"@, "application/vnd.ms-cab-compressed"@),
        ("css"@, "text/css"@),
        ("csv"@, "text/csv"@),
        ("doc"@, "application/msword"@),
        ("docx"@, "application/vnd.openxmlformats-officedocument.wordprocessingml.document"@),
        ("eot"@, "application/vnd.ms-fontobject"@),
        ("exe"@, "application/octet-stream"@),
        ("gif"@, "image/gif"@),
        ("gz"@, "application/gzip"@),
        ("htm"@, "text/html"@),
        ("html"@, "text/html"@),
        ("ico"@, "image/x-icon"@),
        ("ics"@, "text/calendar"@),
        ("jar"@, "application/java-archive"@),
        ("jpeg"@, "image/jpeg"@),
        ("jpg"@, "image/jpeg"@),
        ("js"@, "application/javascript"@),
        ("json"@, "application/json"@),
        ("jsonld"@, "application/ld+json"@),
        ("mid"@, "audio/midi"@),
        ("midi"@, "audio/midi"@),
        ("mjs"@, "application/javascript"@),
        ("mp3"@, "audio/mpeg"@),
        ("mp4"@, "video/mp4"@),
        ("mpeg"@, "video/mpeg"@),
        ("mpkg"@, "application/vnd.apple.installer+xml"@),
        ("odp"@, "application/vnd.oasis.opendocument.presentation"@),
        ("ods"@, "application/vnd.oasis.opendocument.spreadsheet"@),
        ("odt"@, "application/vnd.oasis.opendocument.text"@),
        ("oga"@, "audio/ogg"@),
        ("ogv"@, "video/ogg"@),
        ("ogx"@, "application/ogg"@),
        ("opus"@, "audio/opus"@),
        ("otf"@, "font/otf"@),
        ("png"@, "image/png"@),
        ("pdf"@, "application/pdf"@),
        ("php"@, "application/x-httpd-php"@),
        ("ppt"@, "application/vnd.ms-powerpoint"@),
        ("pptx"@, "application/vnd.openxmlformats-officedocument.presentationml.presentation"@),
        ("rar"@, "application/vnd.rar"@),
        ("rtf"@, "application/rtf"@),
        ("sh"@, "application/x-sh"@),
        ("svg"@, "image/svg+xml"@),
        ("swf"@, "application/x-shockwave-flash"@),
        ("tar"@, "application/x-tar"@),
        ("tif"@, "image/tiff"@),
        ("tiff"@, "image/tiff"@),
        ("ts"@, "video/mp2t"@),
        ("ttf"@, "font/ttf"@),
        ("txt"@, "text/plain"@),
        ("wav"@, "audio/wav"@),
        ("webm"@, "video/webm"@),
        ("webp"@, "image/webp"@),
        ("woff"@, "font/woff"@),
        ("woff2"@, "font/woff2"@),
        ("xhtml"@, "application/xhtml+xml"@),
        ("xls"@, "application/vnd.ms-excel"@),
        ("xlsx"@, "application/vnd.openxmlformats-officedocument.spreadsheetml.sheet"@),
        ("xml"@, "application/xml"@),
        ("zip"@, "application/zip"@),
    ]
}

/// The built-in table.
pub open spec fn builtin_mimetypes() -> Seq<Entry> {
    upsert_all(seq![], builtin_pairs())
}

/// `a` and `b` differ in length or in one of their first six characters.
spec fn chars_differ(a: Seq<char>, b: Seq<char>) -> bool {
    ||| a.len() != b.len()
    ||| a[0] != b[0]
    ||| a[1] != b[1]
    ||| a[2] != b[2]
    ||| a[3] != b[3]
    ||| a[4] != b[4]
    ||| a[5] != b[5]
}

/// Every pair of `p` from index `j` on has a key that visibly differs from
/// `k`.
spec fn later_keys_differ(p: Seq<Entry>, k: Seq<char>, j: int) -> bool
    decreases p.len() - j,
{
    if j < 0 || j >= p.len() {
        true
    } else {
        chars_differ(p[j].0, k) && later_keys_differ(p, k, j + 1)
    }
}

/// Keys that visibly differ are different.
proof fn lemma_later_keys(p: Seq<Entry>, k: Seq<char>, j: int)
    requires
        0 <= j,
        later_keys_differ(p, k, j),
    ensures
        forall|m: int| j <= m < p.len() ==> (#[trigger] p[m]).0 != k,
    decreases p.len() - j,
{
    if j < p.len() {
        lemma_later_keys(p, k, j + 1);
    }
}

/// The mimetype that the members of a `mimetypes` object give `k`: that of
/// the last member named `k`.
pub open spec fn configured_mimetype(members: Seq<(String, JsonValue)>, k: Seq<char>) -> Option<
    Seq<char>,
>
    decreases members.len(),
{
    if members.len() == 0 {
        None
    } else if members.last().0@ == k {
        string_value(members.last().1)
    } else {
        configured_mimetype(members.drop_last(), k)
    }
}

/// Configured mimetypes update the table: an extension the `mimetypes`
/// object names gets the mimetype its last member gives; any other keeps
/// the table's.
pub proof fn lemma_configured_mimetypes_win(
    table: Seq<Entry>,
    members: Seq<(String, JsonValue)>,
    k: Seq<char>,
)
    requires
        apply_mimetypes(table, members) is Ok,
    ensures
        lookup(apply_mimetypes(table, members)->Ok_0, k) == match configured_mimetype(members, k) {
            Some(m) => Some(m),
            None => lookup(table, k),
        },
    decreases members.len(),
{
    if members.len() > 0 {
        let rest = members.drop_last();
        lemma_configured_mimetypes_win(table, rest, k);
        let t = apply_mimetypes(table, rest)->Ok_0;
        let last = members.last();
        let m = string_value(last.1)->0;
        if last.0@ == k {
            lemma_upsert_then_lookup(t, k, m);
        } else {
            lemma_upsert_keeps_others(t, last.0@, m, k);
        }
    }
}

/// Applying the members of a JSON object to the table in order: each must
/// be a string, and defines its key's mimetype.
pub open spec fn apply_mimetypes(table: Seq<Entry>, members: Seq<(String, JsonValue)>) -> Result<
    Seq<Entry>,
    ConfigError,
>
    decreases members.len(),
{
    if members.len() == 0 {
        Ok(table)
    } else {
        match apply_mimetypes(table, members.drop_last()) {
            Err(e) => Err(e),
            Ok(t) => match string_value(members.last().1) {
                Some(m) => Ok(upsert(t, members.last().0@, m)),
                None => Err(ConfigError::MimetypeNotString),
            },
        }
    }
}

/// The mimetype table: the built-in one, updated by the `mimetypes` object
/// when the configuration has one.
pub open spec fn mimetypes_of(o: JsonObject) -> Result<Seq<Entry>, ConfigError> {
    match member(o, "mimetypes"@) {
        None => Ok(builtin_mimetypes()),
        Some(JsonValue::Object(m)) => apply_mimetypes(builtin_mimetypes(), m.members@),
        Some(_) => Err(ConfigError::MimetypesNotObject),
    }
}

/// `c` is the configuration that `o` describes: port, sites, default
/// mimetype and table.
pub open spec fn describes(o: JsonObject, c: Config) -> bool {
    &&& port_of(o) == Ok::<Option<u16>, ConfigError>(c.port)
    &&& servers_of(o) == Ok::<Seq<ServerView>, ConfigError>(server_views(c.servers@))
    &&& default_mimetype_of(o) == Ok::<Seq<char>, ConfigError>(c.default_mimetype@)
    &&& mimetypes_of(o) == Ok::<Seq<Entry>, ConfigError>(c.mimetypes.view())
}

/// The error a configuration is refused with: the first of port, sites,
/// default mimetype and table to fail, in that order.
pub open spec fn config_error(o: JsonObject) -> Option<ConfigError> {
    match port_of(o) {
        Err(e) => Some(e),
        Ok(_) => match servers_of(o) {
            Err(e) => Some(e),
            Ok(_) => match default_mimetype_of(o) {
                Err(e) => Some(e),
                Ok(_) => match mimetypes_of(o) {
                    Err(e) => Some(e),
                    Ok(_) => None,
                },
            },
        },
    }
}

/// The member of `o` named `k`.
pub fn get_member<'a>(o: &'a JsonObject, k: &str) -> (r: Option<&'a JsonValue>)
    ensures
        r matches Some(v) ==> member(*o, k@) == Some(*v),
        r is None ==> member(*o, k@) is None,
{
    let ghost ms = o.members@;
    let mut i: usize = 0;
    assert(ms.skip(0) =~= ms);
    while i < o.members.len()
        invariant
            ms == o.members@,
            i <= ms.len(),
            member_from(ms, k@) == member_from(ms.skip(i as int), k@),
        decreases ms.len() - i,
    {
        assert(ms.skip(i as int)[0] == ms[i as int]);
        if same_text(o.members[i].0.as_str(), k) {
            return Some(&o.members[i].1);
        }
        assert(ms.skip(i as int).drop_first() =~= ms.skip(i + 1));
        i = i + 1;
    }
    None
}

/// A text member of `o`: empty when absent, refused with `e` when not a
/// string.
fn get_text(o: &JsonObject, k: &str, e: ConfigError) -> (r: Result<String, ConfigError>)
    ensures
        match r {
            Ok(s) => text_member(*o, k@, e) == Ok::<Seq<char>, ConfigError>(s@),
            Err(e2) => text_member(*o, k@, e) == Err::<Seq<char>, ConfigError>(e2),
        },
{
    match get_member(o, k) {
        Some(v) => match v {
            JsonValue::Str(s) => Ok(s.clone()),
            _ => Err(e),
        },
        None => Ok(String::new()),
    }
}

/// The configured port (`port`, 80 when absent).
pub fn get_port(config: &JsonObject) -> (r: Result<Option<u16>, ConfigError>)
    ensures
        r == port_of(*config),
{
    match get_member(config, "port") {
        Some(v) => match v {
            JsonValue::Number(Some(p)) => Ok(Some(*p)),
            JsonValue::Number(None) => Err(ConfigError::PortNotU16),
            _ => Err(ConfigError::PortNotNumber),
        },
        None => Ok(Some(80)),
    }
}

/// A site from its JSON object.
pub fn get_server(serverj: &JsonObject) -> (r: Result<Server, ConfigError>)
    ensures
        match r {
            Ok(s) => server_of(*serverj) == Ok::<ServerView, ConfigError>(server_view(s)),
            Err(e) => server_of(*serverj) == Err::<ServerView, ConfigError>(e),
        },
{
    let name = match get_text(serverj, "name", ConfigError::ServerNameNotString) {
        Ok(n) => n,
        Err(e) => {
            return Err(e);
        },
    };
    let hostname = match get_member(serverj, "hostname") {
        None => {
            return Err(ConfigError::MissingHostname);
        },
        Some(h) => match h {
            JsonValue::Str(s) => s.clone(),
            _ => {
                return Err(ConfigError::HostnameNotString);
            },
        },
    };
    let port: u16 = match get_member(serverj, "port") {
        Some(p) => match p {
            JsonValue::Number(Some(n)) => *n,
            _ => {
                return Err(ConfigError::ServerPortNotU16);
            },
        },
        None => 0,
    };
    let dir = match get_text(serverj, "dir", ConfigError::ServerDirNotString) {
        Ok(d) => d,
        Err(e) => {
            return Err(e);
        },
    };
    Ok(Server { name, hostname, port, dir })
}

/// The sites described by the elements of a JSON array.
pub fn get_servers_from(items: &Vec<JsonValue>) -> (r: Result<Vec<Server>, ConfigError>)
    ensures
        match r {
            Ok(v) => servers_from(items@) == Ok::<Seq<ServerView>, ConfigError>(server_views(v@)),
            Err(e) => servers_from(items@) == Err::<Seq<ServerView>, ConfigError>(e),
        },
{
    let mut servers: Vec<Server> = Vec::new();
    let mut i: usize = 0;
    assert(items@.take(0) =~= Seq::<JsonValue>::empty());
    assert(server_views(servers@) =~= Seq::<ServerView>::empty());
    while i < items.len()
        invariant
            i <= items.len(),
            servers_from(items@.take(i as int)) == Ok::<Seq<ServerView>, ConfigError>(
                server_views(servers@),
            ),
        decreases items.len() - i,
    {
        assert(items@.take(i + 1).drop_last() =~= items@.take(i as int));
        assert(items@.take(i + 1).last() == items@[i as int]);
        match &items[i] {
            JsonValue::Object(o) => match get_server(o) {
                Ok(s) => {
                    let ghost before = servers@;
                    servers.push(s);
                    assert(server_views(servers@) =~= server_views(before).push(server_view(s)));
                },
                Err(e) => {
                    proof {
                        lemma_servers_error_persists(items@, i as int + 1, e);
                    }
                    return Err(e);
                },
            },
            _ => {
                proof {
                    lemma_servers_error_persists(items@, i as int + 1, ConfigError::ServerNotObject);
                }
                return Err(ConfigError::ServerNotObject);
            },
        }
        i = i + 1;
    }
    assert(items@.take(items.len() as int) =~= items@);
    Ok(servers)
}

/// Once a prefix of the array is refused, so is the whole array.
proof fn lemma_servers_error_persists(items: Seq<JsonValue>, n: int, e: ConfigError)
    requires
        0 <= n <= items.len(),
        servers_from(items.take(n)) == Err::<Seq<ServerView>, ConfigError>(e),
    ensures
        servers_from(items) == Err::<Seq<ServerView>, ConfigError>(e),
    decreases items.len() - n,
{
    if n < items.len() {
        assert(items.take(n + 1).drop_last() =~= items.take(n));
        lemma_servers_error_persists(items, n + 1, e);
    } else {
        assert(items.take(n) =~= items);
    }
}

/// The configured sites (`servers`, an array of site objects).
pub fn get_servers(config: &JsonObject) -> (r: Result<Vec<Server>, ConfigError>)
    ensures
        match r {
            Ok(v) => servers_of(*config) == Ok::<Seq<ServerView>, ConfigError>(server_views(v@)),
            Err(e) => servers_of(*config) == Err::<Seq<ServerView>, ConfigError>(e),
        },
{
    match get_member(config, "servers") {
        None => Err(ConfigError::NoServers),
        Some(v) => match v {
            JsonValue::Array(items) => get_servers_from(items),
            _ => Err(ConfigError::ServersNotArray),
        },
    }
}

/// The mimetype for unknown extensions (`default-mimetype`).
pub fn get_default_mimetype(config: &JsonObject) -> (r: Result<String, ConfigError>)
    ensures
        match r {
            Ok(s) => default_mimetype_of(*config) == Ok::<Seq<char>, ConfigError>(s@),
            Err(e) => default_mimetype_of(*config) == Err::<Seq<char>, ConfigError>(e),
        },
{
    match get_member(config, "default-mimetype") {
        Some(v) => match v {
            JsonValue::Str(s) => Ok(s.clone()),
            _ => Err(ConfigError::DefaultMimetypeNotString),
        },
        None => Ok(owned("application/octet-stream")),
    }
}

impl MimeTypes {
    /// An empty table.
    pub fn new() -> (r: MimeTypes)
        ensures
            r.view() == Seq::<Entry>::empty(),
    {
        let r = MimeTypes { entries: Vec::new() };
        assert(r.view() =~= Seq::<Entry>::empty());
        r
    }

    /// Sets the mimetype of `ext`.
    pub fn insert(&mut self, ext: String, mime: String)
        ensures
            final(self).view() == upsert(old(self).view(), ext@, mime@),
    {
        let ghost before = old(self).view();
        let ghost es = old(self).entries@;
        let mut found = false;
        let mut i: usize = 0;
        while i < self.entries.len()
            invariant
                es == old(self).entries@,
                before == entry_views(es),
                self.entries@.len() == es.len(),
                i <= self.entries.len(),
                found <==> exists|j: int| 0 <= j < i && (#[trigger] es[j]).0@ == ext@,
                forall|j: int|
                    0 <= j < i ==> if es[j].0@ == ext@ {
                        (#[trigger] self.entries@[j]).0@ == ext@ && self.entries@[j].1@ == mime@
                    } else {
                        self.entries@[j] == es[j]
                    },
                forall|j: int| i <= j < self.entries.len() ==> #[trigger] self.entries@[j] == es[j],
            decreases self.entries.len() - i,
        {
            if self.entries[i].0 == ext {
                let key = self.entries[i].0.clone();
                self.entries.set(i, (key, mime.clone()));
                found = true;
            }
            i = i + 1;
        }
        if !found {
            let ghost mid = self.entries@;
            self.entries.push((ext, mime));
            assert forall|j: int| 0 <= j < mid.len() implies #[trigger] mid[j] == es[j] by {
                if es[j].0@ == ext@ {
                    assert(found);
                }
            }
            assert(self.view() =~= before.push((ext@, mime@)));
            assert forall|j: int| !(0 <= j < before.len() && (#[trigger] before[j]).0 == ext@) by {
                if 0 <= j < before.len() && before[j].0 == ext@ {
                    assert(es[j].0@ == ext@);
                }
            }
        } else {
            let ghost j0 = choose|j: int| 0 <= j < i && (#[trigger] es[j]).0@ == ext@;
            assert(before[j0].0 == ext@);
            assert(self.view() =~= before.map_values(
                |c: Entry|
                    if c.0 == ext@ {
                        (c.0, mime@)
                    } else {
                        c
                    },
            ));
        }
    }

    /// The mimetype of `ext`.
    pub fn get(&self, ext: &str) -> (r: Option<&String>)
        ensures
            r matches Some(m) ==> lookup(self.view(), ext@) == Some(m@),
            r is None ==> lookup(self.view(), ext@) is None,
    {
        let ghost all = self.view();
        let mut i: usize = 0;
        assert(all.skip(0) =~= all);
        while i < self.entries.len()
            invariant
                all == self.view(),
                i <= self.entries.len(),
                lookup(all, ext@) == lookup(all.skip(i as int), ext@),
            decreases self.entries.len() - i,
        {
            assert(all.skip(i as int)[0] == all[i as int]);
            if same_text(self.entries[i].0.as_str(), ext) {
                return Some(&self.entries[i].1);
            }
            assert(all.skip(i as int).drop_first() =~= all.skip(i + 1));
            i = i + 1;
        }
        None
    }
}

/// The built-in pairs, in order.
#[verifier::rlimit(50)]
fn builtin_pair_list() -> (r: Vec<(String, String)>)
    ensures
        entry_views(r@) == builtin_pairs(),
{
    let mut pairs: Vec<(String, String)> = Vec::new();
        pairs.push((owned("aac"), owned("audio/aac")));
        pairs.push((owned("abw"), owned("application/x-abiword")));
        pairs.push((owned("apng"), owned("image/apng")));
        pairs.push((owned("arc"), owned("application/x-freearc")));
        pairs.push((owned("avif"), owned("image/avif")));
        pairs.push((owned("avi"), owned("video/x-msvideo")));
        pairs.push((owned("bin"), owned("application/octet-stream")));
        pairs.push((owned("bmp"), owned("image/bmp")));
        pairs.push((owned("bz"), owned("application/x-bzip")));
        pairs.push((owned("bz2"), owned("application/x-bzip2")));
        pairs.push((owned("c"), owned("text/plain")));
        pairs.push((owned("cab"), owned("application/vnd.ms-cab-compressed")));
        pairs.push((owned("css"), owned("text/css")));
        pairs.push((owned("csv"), owned("text/csv")));
        pairs.push((owned("doc"), owned("application/msword")));
        pairs.push((owned("docx"), owned("application/vnd.openxmlformats-officedocument.wordprocessingml.document")));
        pairs.push((owned("eot"), owned("application/vnd.ms-fontobject")));
        pairs.push((owned("exe"), owned("application/octet-stream")));
        pairs.push((owned("gif"), owned("image/gif")));
        pairs.push((owned("gz"), owned("application/gzip")));
        pairs.push((owned("htm"), owned("text/html")));
        pairs.push((owned("html"), owned("text/html")));
        pairs.push((owned("ico"), owned("image/x-icon")));
        pairs.push((owned("ics"), owned("text/calendar")));
        pairs.push((owned("jar"), owned("application/java-archive")));
        pairs.push((owned("jpeg"), owned("image/jpeg")));
        pairs.push((owned("jpg"), owned("image/jpeg")));
        pairs.push((owned("js"), owned("application/javascript")));
        pairs.push((owned("json"), owned("application/json")));
        pairs.push((owned("jsonld"), owned("application/ld+json")));
        pairs.push((owned("mid"), owned("audio/midi")));
        pairs.push((owned("midi"), owned("audio/midi")));
        pairs.push((owned("mjs"), owned("application/javascript")));
        pairs.push((owned("mp3"), owned("audio/mpeg")));
        pairs.push((owned("mp4"), owned("video/mp4")));
        pairs.push((owned("mpeg"), owned("video/mpeg")));
        pairs.push((owned("mpkg"), owned("application/vnd.apple.installer+xml")));
        pairs.push((owned("odp"), owned("application/vnd.oasis.opendocument.presentation")));
        pairs.push((owned("ods"), owned("application/vnd.oasis.opendocument.spreadsheet")));
        pairs.push((owned("odt"), owned("application/vnd.oasis.opendocument.text")));
        pairs.push((owned("oga"), owned("audio/ogg")));
        pairs.push((owned("ogv"), owned("video/ogg")));
        pairs.push((owned("ogx"), owned("application/ogg")));
        pairs.push((owned("opus"), owned("audio/opus")));
        pairs.push((owned("otf"), owned("font/otf")));
        pairs.push((owned("png"), owned("image/png")));
        pairs.push((owned("pdf"), owned("application/pdf")));
        pairs.push((owned("php"), owned("application/x-httpd-php")));
        pairs.push((owned("ppt"), owned("application/vnd.ms-powerpoint")));
        pairs.push((owned("pptx"), owned("application/vnd.openxmlformats-officedocument.presentationml.presentation")));
        pairs.push((owned("rar"), owned("application/vnd.rar")));
        pairs.push((owned("rtf"), owned("application/rtf")));
        pairs.push((owned("sh"), owned("application/x-sh")));
        pairs.push((owned("svg"), owned("image/svg+xml")));
        pairs.push((owned("swf"), owned("application/x-shockwave-flash")));
        pairs.push((owned("tar"), owned("application/x-tar")));
        pairs.push((owned("tif"), owned("image/tiff")));
        pairs.push((owned("tiff"), owned("image/tiff")));
        pairs.push((owned("ts"), owned("video/mp2t")));
        pairs.push((owned("ttf"), owned("font/ttf")));
        pairs.push((owned("txt"), owned("text/plain")));
        pairs.push((owned("wav"), owned("audio/wav")));
        pairs.push((owned("webm"), owned("video/webm")));
        pairs.push((owned("webp"), owned("image/webp")));
        pairs.push((owned("woff"), owned("font/woff")));
        pairs.push((owned("woff2"), owned("font/woff2")));
        pairs.push((owned("xhtml"), owned("application/xhtml+xml")));
        pairs.push((owned("xls"), owned("application/vnd.ms-excel")));
        pairs.push((owned("xlsx"), owned("application/vnd.openxmlformats-officedocument.spreadsheetml.sheet")));
        pairs.push((owned("xml"), owned("application/xml")));
        pairs.push((owned("zip"), owned("application/zip")));
    assert(entry_views(pairs@) =~= builtin_pairs());
    pairs
}

impl MimeTypes {
    /// The built-in table.
    pub fn builtin() -> (r: MimeTypes)
        ensures
            r.view() == builtin_mimetypes(),
    {
        let pairs = builtin_pair_list();
        let ghost ps = entry_views(pairs@);
        let mut table = MimeTypes::new();
        let mut i: usize = 0;
        assert(ps.take(0) =~= Seq::<Entry>::empty());
        while i < pairs.len()
            invariant
                ps == entry_views(pairs@),
                ps == builtin_pairs(),
                i <= pairs.len(),
                table.view() == upsert_all(seq![], ps.take(i as int)),
            decreases pairs.len() - i,
        {
            assert(ps.take(i + 1).drop_last() =~= ps.take(i as int));
            assert(ps.take(i + 1).last() == ps[i as int]);
            table.insert(pairs[i].0.clone(), pairs[i].1.clone());
            i = i + 1;
        }
        assert(ps.take(pairs.len() as int) =~= ps);
        table
    }
}

/// Once a prefix of the members is refused, so are all of them.
proof fn lemma_mimetypes_error_persists(
    table: Seq<Entry>,
    members: Seq<(String, JsonValue)>,
    n: int,
    e: ConfigError,
)
    requires
        0 <= n <= members.len(),
        apply_mimetypes(table, members.take(n)) == Err::<Seq<Entry>, ConfigError>(e),
    ensures
        apply_mimetypes(table, members) == Err::<Seq<Entry>, ConfigError>(e),
    decreases members.len() - n,
{
    if n < members.len() {
        assert(members.take(n + 1).drop_last() =~= members.take(n));
        lemma_mimetypes_error_persists(table, members, n + 1, e);
    } else {
        assert(members.take(n) =~= members);
    }
}

/// The mimetype table: the built-in one, updated by `mimetypes` (an object
/// of strings) when present.
pub fn get_mimetypes(config: &JsonObject) -> (r: Result<MimeTypes, ConfigError>)
    ensures
        match r {
            Ok(t) => mimetypes_of(*config) == Ok::<Seq<Entry>, ConfigError>(t.view()),
            Err(e) => mimetypes_of(*config) == Err::<Seq<Entry>, ConfigError>(e),
        },
{
    let mut table = MimeTypes::builtin();
    match get_member(config, "mimetypes") {
        None => Ok(table),
        Some(v) => match v {
            JsonValue::Object(m) => {
                let ghost ms = m.members@;
                let mut i: usize = 0;
                assert(ms.take(0) =~= Seq::<(String, JsonValue)>::empty());
                while i < m.members.len()
                    invariant
                        ms == m.members@,
                        mimetypes_of(*config) == apply_mimetypes(builtin_mimetypes(), ms),
                        i <= ms.len(),
                        apply_mimetypes(builtin_mimetypes(), ms.take(i as int)) == Ok::<
                            Seq<Entry>,
                            ConfigError,
                        >(table.view()),
                    decreases ms.len() - i,
                {
                    assert(ms.take(i + 1).drop_last() =~= ms.take(i as int));
                    assert(ms.take(i + 1).last() == ms[i as int]);
                    match &m.members[i].1 {
                        JsonValue::Str(mime) => {
                            table.insert(m.members[i].0.clone(), mime.clone());
                        },
                        _ => {
                            proof {
                                lemma_mimetypes_error_persists(
                                    builtin_mimetypes(),
                                    ms,
                                    i + 1,
                                    ConfigError::MimetypeNotString,
                                );
                            }
                            return Err(ConfigError::MimetypeNotString);
                        },
                    }
                    i = i + 1;
                }
                assert(ms.take(ms.len() as int) =~= ms);
                Ok(table)
            },
            _ => Err(ConfigError::MimetypesNotObject),
        },
    }
}

impl Config {
    /// An empty configuration: no port, no sites, an empty table and an
    /// empty default mimetype.
    pub fn new() -> (r: Config)
        ensures
            r.port is None,
            r.servers@.len() == 0,
            r.mimetypes.view().len() == 0,
            r.default_mimetype@.len() == 0,
    {
        Config {
            port: None,
            servers: Vec::new(),
            mimetypes: MimeTypes::new(),
            default_mimetype: String::new(),
        }
    }
}

/// The configuration described by the JSON object of `stirners.json`, or
/// the first reason it is refused.
pub fn get_config(config_j: &JsonObject) -> (r: Result<Config, ConfigError>)
    ensures
        match r {
            Ok(c) => describes(*config_j, c) && config_error(*config_j) is None,
            Err(e) => config_error(*config_j) == Some(e),
        },
{
    let mut config = Config::new();
    config.port = match get_port(config_j) {
        Ok(p) => p,
        Err(e) => {
            return Err(e);
        },
    };
    config.servers = match get_servers(config_j) {
        Ok(s) => s,
        Err(e) => {
            return Err(e);
        },
    };
    config.default_mimetype = match get_default_mimetype(config_j) {
        Ok(d) => d,
        Err(e) => {
            return Err(e);
        },
    };
    config.mimetypes = match get_mimetypes(config_j) {
        Ok(m) => m,
        Err(e) => {
            return Err(e);
        },
    };
    Ok(config)
}

impl ConfigError {
    /// The message the configuration is refused with.
    pub fn message(&self) -> (r: String)
        ensures
            r@ == error_message(*self),
    {
        match self {
            ConfigError::PortNotNumber => owned("Port must be a number"),
            ConfigError::PortNotU16 => owned("Port must be a valid u16 number"),
            ConfigError::ServerNameNotString => owned("Server name must be a valid string"),
            ConfigError::MissingHostname => owned("Server must have a hostname"),
            ConfigError::HostnameNotString => owned("Server hostname must be a valid string"),
            ConfigError::ServerPortNotU16 => owned("Server port must be a valid u16 number"),
            ConfigError::ServerDirNotString => owned("Server dir must be a valid string"),
            ConfigError::NoServers => owned("No servers found in config"),
            ConfigError::ServersNotArray => owned("Servers must be an array"),
            ConfigError::ServerNotObject => owned("Server must be an object"),
            ConfigError::DefaultMimetypeNotString => owned("Default mimetype must be a string"),
            ConfigError::MimetypesNotObject => owned("Error: Mimetypes must be an object"),
            ConfigError::MimetypeNotString => owned("Error: Mimetype values must be a string"),
        }
    }
}

/// The message of each refusal.
pub open spec fn error_message(e: ConfigError) -> Seq<char> {
    match e {
        ConfigError::PortNotNumber => "Port must be a number"@,
        ConfigError::PortNotU16 => "Port must be a valid u16 number"@,
        ConfigError::ServerNameNotString => "Server name must be a valid string"@,
        ConfigError::MissingHostname => "Server must have a hostname"@,
        ConfigError::HostnameNotString => "Server hostname must be a valid string"@,
        ConfigError::ServerPortNotU16 => "Server port must be a valid u16 number"@,
        ConfigError::ServerDirNotString => "Server dir must be a valid string"@,
        ConfigError::NoServers => "No servers found in config"@,
        ConfigError::ServersNotArray => "Servers must be an array"@,
        ConfigError::ServerNotObject => "Server must be an object"@,
        ConfigError::DefaultMimetypeNotString => "Default mimetype must be a string"@,
        ConfigError::MimetypesNotObject => "Error: Mimetypes must be an object"@,
        ConfigError::MimetypeNotString => "Error: Mimetype values must be a string"@,
    }
}

/// The built-in mimetype table gives each extension it knows its standard
/// type.
pub proof fn lemma_builtin_mimetypes()
    ensures
        lookup(builtin_mimetypes(), "aac"@) == Some("audio/aac"@),
        lookup(builtin_mimetypes(), "abw"@) == Some("application/x-abiword"@),
        lookup(builtin_mimetypes(), "apng"@) == Some("image/apng"@),
        lookup(builtin_mimetypes(), "arc"@) == Some("application/x-freearc"@),
        lookup(builtin_mimetypes(), "avif"@) == Some("image/avif"@),
        lookup(builtin_mimetypes(), "avi"@) == Some("video/x-msvideo"@),
        lookup(builtin_mimetypes(), "bin"@) == Some("application/octet-stream"@),
        lookup(builtin_mimetypes(), "bmp"@) == Some("image/bmp"@),
        lookup(builtin_mimetypes(), "bz"@) == Some("application/x-bzip"@),
        lookup(builtin_mimetypes(), "bz2"@) == Some("application/x-bzip2"@),
        lookup(builtin_mimetypes(), "c"@) == Some("text/plain"@),
        lookup(builtin_mimetypes(), "cab"@) == Some("application/vnd.ms-cab-compressed"@),
        lookup(builtin_mimetypes(), "css"@) == Some("text/css"@),
        lookup(builtin_mimetypes(), "csv"@) == Some("text/csv"@),
        lookup(builtin_mimetypes(), "doc"@) == Some("application/msword"@),
        lookup(builtin_mimetypes(), "docx"@) == Some("application/vnd.openxmlformats-officedocument.wordprocessingml.document"@),
        lookup(builtin_mimetypes(), "eot"@) == Some("application/vnd.ms-fontobject"@),
        lookup(builtin_mimetypes(), "exe"@) == Some("application/octet-stream"@),
        lookup(builtin_mimetypes(), "gif"@) == Some("image/gif"@),
        lookup(builtin_mimetypes(), "gz"@) == Some("application/gzip"@),
        lookup(builtin_mimetypes(), "htm"@) == Some("text/html"@),
        lookup(builtin_mimetypes(), "html"@) == Some("text/html"@),
        lookup(builtin_mimetypes(), "ico"@) == Some("image/x-icon"@),
        lookup(builtin_mimetypes(), "ics"@) == Some("text/calendar"@),
        lookup(builtin_mimetypes(), "jar"@) == Some("application/java-archive"@),
        lookup(builtin_mimetypes(), "jpeg"@) == Some("image/jpeg"@),
        lookup(builtin_mimetypes(), "jpg"@) == Some("image/jpeg"@),
        lookup(builtin_mimetypes(), "js"@) == Some("application/javascript"@),
        lookup(builtin_mimetypes(), "json"@) == Some("application/json"@),
        lookup(builtin_mimetypes(), "jsonld"@) == Some("application/ld+json"@),
        lookup(builtin_mimetypes(), "mid"@) == Some("audio/midi"@),
        lookup(builtin_mimetypes(), "midi"@) == Some("audio/midi"@),
        lookup(builtin_mimetypes(), "mjs"@) == Some("application/javascript"@),
        lookup(builtin_mimetypes(), "mp3"@) == Some("audio/mpeg"@),
        lookup(builtin_mimetypes(), "mp4"@) == Some("video/mp4"@),
        lookup(builtin_mimetypes(), "mpeg"@) == Some("video/mpeg"@),
        lookup(builtin_mimetypes(), "mpkg"@) == Some("application/vnd.apple.installer+xml"@),
        lookup(builtin_mimetypes(), "odp"@) == Some("application/vnd.oasis.opendocument.presentation"@),
        lookup(builtin_mimetypes(), "ods"@) == Some("application/vnd.oasis.opendocument.spreadsheet"@),
        lookup(builtin_mimetypes(), "odt"@) == Some("application/vnd.oasis.opendocument.text"@),
        lookup(builtin_mimetypes(), "oga"@) == Some("audio/ogg"@),
        lookup(builtin_mimetypes(), "ogv"@) == Some("video/ogg"@),
        lookup(builtin_mimetypes(), "ogx"@) == Some("application/ogg"@),
        lookup(builtin_mimetypes(), "opus"@) == Some("audio/opus"@),
        lookup(builtin_mimetypes(), "otf"@) == Some("font/otf"@),
        lookup(builtin_mimetypes(), "png"@) == Some("image/png"@),
        lookup(builtin_mimetypes(), "pdf"@) == Some("application/pdf"@),
        lookup(builtin_mimetypes(), "php"@) == Some("application/x-httpd-php"@),
        lookup(builtin_mimetypes(), "ppt"@) == Some("application/vnd.ms-powerpoint"@),
        lookup(builtin_mimetypes(), "pptx"@) == Some("application/vnd.openxmlformats-officedocument.presentationml.presentation"@),
        lookup(builtin_mimetypes(), "rar"@) == Some("application/vnd.rar"@),
        lookup(builtin_mimetypes(), "rtf"@) == Some("application/rtf"@),
        lookup(builtin_mimetypes(), "sh"@) == Some("application/x-sh"@),
        lookup(builtin_mimetypes(), "svg"@) == Some("image/svg+xml"@),
        lookup(builtin_mimetypes(), "swf"@) == Some("application/x-shockwave-flash"@),
        lookup(builtin_mimetypes(), "tar"@) == Some("application/x-tar"@),
        lookup(builtin_mimetypes(), "tif"@) == Some("image/tiff"@),
        lookup(builtin_mimetypes(), "tiff"@) == Some("image/tiff"@),
        lookup(builtin_mimetypes(), "ts"@) == Some("video/mp2t"@),
        lookup(builtin_mimetypes(), "ttf"@) == Some("font/ttf"@),
        lookup(builtin_mimetypes(), "txt"@) == Some("text/plain"@),
        lookup(builtin_mimetypes(), "wav"@) == Some("audio/wav"@),
        lookup(builtin_mimetypes(), "webm"@) == Some("video/webm"@),
        lookup(builtin_mimetypes(), "webp"@) == Some("image/webp"@),
        lookup(builtin_mimetypes(), "woff"@) == Some("font/woff"@),
        lookup(builtin_mimetypes(), "woff2"@) == Some("font/woff2"@),
        lookup(builtin_mimetypes(), "xhtml"@) == Some("application/xhtml+xml"@),
        lookup(builtin_mimetypes(), "xls"@) == Some("application/vnd.ms-excel"@),
        lookup(builtin_mimetypes(), "xlsx"@) == Some("application/vnd.openxmlformats-officedocument.spreadsheetml.sheet"@),
        lookup(builtin_mimetypes(), "xml"@) == Some("application/xml"@),
        lookup(builtin_mimetypes(), "zip"@) == Some("application/zip"@),
{
    let p = builtin_pairs();
    reveal_strlit("aac");
    reveal_strlit("abw");
    reveal_strlit("apng");
    reveal_strlit("arc");
    reveal_strlit("avif");
    reveal_strlit("avi");
    reveal_strlit("bin");
    reveal_strlit("bmp");
    reveal_strlit("bz");
    reveal_strlit("bz2");
    reveal_strlit("c");
    reveal_strlit("cab");
    reveal_strlit("css");
    reveal_strlit("csv");
    reveal_strlit("doc");
    reveal_strlit("docx");
    reveal_strlit("eot");
    reveal_strlit("exe");
    reveal_strlit("gif");
    reveal_strlit("gz");
    reveal_strlit("htm");
    reveal_strlit("html");
    reveal_strlit("ico");
    reveal_strlit("ics");
    reveal_strlit("jar");
    reveal_strlit("jpeg");
    reveal_strlit("jpg");
    reveal_strlit("js");
    reveal_strlit("json");
    reveal_strlit("jsonld");
    reveal_strlit("mid");
    reveal_strlit("midi");
    reveal_strlit("mjs");
    reveal_strlit("mp3");
    reveal_strlit("mp4");
    reveal_strlit("mpeg");
    reveal_strlit("mpkg");
    reveal_strlit("odp");
    reveal_strlit("ods");
    reveal_strlit("odt");
    reveal_strlit("oga");
    reveal_strlit("ogv");
    reveal_strlit("ogx");
    reveal_strlit("opus");
    reveal_strlit("otf");
    reveal_strlit("png");
    reveal_strlit("pdf");
    reveal_strlit("php");
    reveal_strlit("ppt");
    reveal_strlit("pptx");
    reveal_strlit("rar");
    reveal_strlit("rtf");
    reveal_strlit("sh");
    reveal_strlit("svg");
    reveal_strlit("swf");
    reveal_strlit("tar");
    reveal_strlit("tif");
    reveal_strlit("tiff");
    reveal_strlit("ts");
    reveal_strlit("ttf");
    reveal_strlit("txt");
    reveal_strlit("wav");
    reveal_strlit("webm");
    reveal_strlit("webp");
    reveal_strlit("woff");
    reveal_strlit("woff2");
    reveal_strlit("xhtml");
    reveal_strlit("xls");
    reveal_strlit("xlsx");
    reveal_strlit("xml");
    reveal_strlit("zip");
    reveal_with_fuel(later_keys_differ, 72);
    assert(later_keys_differ(p, "aac"@, 1));
    lemma_later_keys(p, "aac"@, 1);
    lemma_upsert_all_last_wins(seq![], p, 0);
    assert(later_keys_differ(p, "abw"@, 2));
    lemma_later_keys(p, "abw"@, 2);
    lemma_upsert_all_last_wins(seq![], p, 1);
    assert(later_keys_differ(p, "apng"@, 3));
    lemma_later_keys(p, "apng"@, 3);
    lemma_upsert_all_last_wins(seq![], p, 2);
    assert(later_keys_differ(p, "arc"@, 4));
    lemma_later_keys(p, "arc"@, 4);
    lemma_upsert_all_last_wins(seq![], p, 3);
    assert(later_keys_differ(p, "avif"@, 5));
    lemma_later_keys(p, "avif"@, 5);
    lemma_upsert_all_last_wins(seq![], p, 4);
    assert(later_keys_differ(p, "avi"@, 6));
    lemma_later_keys(p, "avi"@, 6);
    lemma_upsert_all_last_wins(seq![], p, 5);
    assert(later_keys_differ(p, "bin"@, 7));
    lemma_later_keys(p, "bin"@, 7);
    lemma_upsert_all_last_wins(seq![], p, 6);
    assert(later_keys_differ(p, "bmp"@, 8));
    lemma_later_keys(p, "bmp"@, 8);
    lemma_upsert_all_last_wins(seq![], p, 7);
    assert(later_keys_differ(p, "bz"@, 9));
    lemma_later_keys(p, "bz"@, 9);
    lemma_upsert_all_last_wins(seq![], p, 8);
    assert(later_keys_differ(p, "bz2"@, 10));
    lemma_later_keys(p, "bz2"@, 10);
    lemma_upsert_all_last_wins(seq![], p, 9);
    assert(later_keys_differ(p, "c"@, 11));
    lemma_later_keys(p, "c"@, 11);
    lemma_upsert_all_last_wins(seq![], p, 10);
    assert(later_keys_differ(p, "cab"@, 12));
    lemma_later_keys(p, "cab"@, 12);
    lemma_upsert_all_last_wins(seq![], p, 11);
    assert(later_keys_differ(p, "css"@, 13));
    lemma_later_keys(p, "css"@, 13);
    lemma_upsert_all_last_wins(seq![], p, 12);
    assert(later_keys_differ(p, "csv"@, 14));
    lemma_later_keys(p, "csv"@, 14);
    lemma_upsert_all_last_wins(seq![], p, 13);
    assert(later_keys_differ(p, "doc"@, 15));
    lemma_later_keys(p, "doc"@, 15);
    lemma_upsert_all_last_wins(seq![], p, 14);
    assert(later_keys_differ(p, "docx"@, 16));
    lemma_later_keys(p, "docx"@, 16);
    lemma_upsert_all_last_wins(seq![], p, 15);
    assert(later_keys_differ(p, "eot"@, 17));
    lemma_later_keys(p, "eot"@, 17);
    lemma_upsert_all_last_wins(seq![], p, 16);
    assert(later_keys_differ(p, "exe"@, 18));
    lemma_later_keys(p, "exe"@, 18);
    lemma_upsert_all_last_wins(seq![], p, 17);
    assert(later_keys_differ(p, "gif"@, 19));
    lemma_later_keys(p, "gif"@, 19);
    lemma_upsert_all_last_wins(seq![], p, 18);
    assert(later_keys_differ(p, "gz"@, 20));
    lemma_later_keys(p, "gz"@, 20);
    lemma_upsert_all_last_wins(seq![], p, 19);
    assert(later_keys_differ(p, "htm"@, 21));
    lemma_later_keys(p, "htm"@, 21);
    lemma_upsert_all_last_wins(seq![], p, 20);
    assert(later_keys_differ(p, "html"@, 22));
    lemma_later_keys(p, "html"@, 22);
    lemma_upsert_all_last_wins(seq![], p, 21);
    assert(later_keys_differ(p, "ico"@, 23));
    lemma_later_keys(p, "ico"@, 23);
    lemma_upsert_all_last_wins(seq![], p, 22);
    assert(later_keys_differ(p, "ics"@, 24));
    lemma_later_keys(p, "ics"@, 24);
    lemma_upsert_all_last_wins(seq![], p, 23);
    assert(later_keys_differ(p, "jar"@, 25));
    lemma_later_keys(p, "jar"@, 25);
    lemma_upsert_all_last_wins(seq![], p, 24);
    assert(later_keys_differ(p, "jpeg"@, 26));
    lemma_later_keys(p, "jpeg"@, 26);
    lemma_upsert_all_last_wins(seq![], p, 25);
    assert(later_keys_differ(p, "jpg"@, 27));
    lemma_later_keys(p, "jpg"@, 27);
    lemma_upsert_all_last_wins(seq![], p, 26);
    assert(later_keys_differ(p, "js"@, 28));
    lemma_later_keys(p, "js"@, 28);
    lemma_upsert_all_last_wins(seq![], p, 27);
    assert(later_keys_differ(p, "json"@, 29));
    lemma_later_keys(p, "json"@, 29);
    lemma_upsert_all_last_wins(seq![], p, 28);
    assert(later_keys_differ(p, "jsonld"@, 30));
    lemma_later_keys(p, "jsonld"@, 30);
    lemma_upsert_all_last_wins(seq![], p, 29);
    assert(later_keys_differ(p, "mid"@, 31));
    lemma_later_keys(p, "mid"@, 31);
    lemma_upsert_all_last_wins(seq![], p, 30);
    assert(later_keys_differ(p, "midi"@, 32));
    lemma_later_keys(p, "midi"@, 32);
    lemma_upsert_all_last_wins(seq![], p, 31);
    assert(later_keys_differ(p, "mjs"@, 33));
    lemma_later_keys(p, "mjs"@, 33);
    lemma_upsert_all_last_wins(seq![], p, 32);
    assert(later_keys_differ(p, "mp3"@, 34));
    lemma_later_keys(p, "mp3"@, 34);
    lemma_upsert_all_last_wins(seq![], p, 33);
    assert(later_keys_differ(p, "mp4"@, 35));
    lemma_later_keys(p, "mp4"@, 35);
    lemma_upsert_all_last_wins(seq![], p, 34);
    assert(later_keys_differ(p, "mpeg"@, 36));
    lemma_later_keys(p, "mpeg"@, 36);
    lemma_upsert_all_last_wins(seq![], p, 35);
    assert(later_keys_differ(p, "mpkg"@, 37));
    lemma_later_keys(p, "mpkg"@, 37);
    lemma_upsert_all_last_wins(seq![], p, 36);
    assert(later_keys_differ(p, "odp"@, 38));
    lemma_later_keys(p, "odp"@, 38);
    lemma_upsert_all_last_wins(seq![], p, 37);
    assert(later_keys_differ(p, "ods"@, 39));
    lemma_later_keys(p, "ods"@, 39);
    lemma_upsert_all_last_wins(seq![], p, 38);
    assert(later_keys_differ(p, "odt"@, 40));
    lemma_later_keys(p, "odt"@, 40);
    lemma_upsert_all_last_wins(seq![], p, 39);
    assert(later_keys_differ(p, "oga"@, 41));
    lemma_later_keys(p, "oga"@, 41);
    lemma_upsert_all_last_wins(seq![], p, 40);
    assert(later_keys_differ(p, "ogv"@, 42));
    lemma_later_keys(p, "ogv"@, 42);
    lemma_upsert_all_last_wins(seq![], p, 41);
    assert(later_keys_differ(p, "ogx"@, 43));
    lemma_later_keys(p, "ogx"@, 43);
    lemma_upsert_all_last_wins(seq![], p, 42);
    assert(later_keys_differ(p, "opus"@, 44));
    lemma_later_keys(p, "opus"@, 44);
    lemma_upsert_all_last_wins(seq![], p, 43);
    assert(later_keys_differ(p, "otf"@, 45));
    lemma_later_keys(p, "otf"@, 45);
    lemma_upsert_all_last_wins(seq![], p, 44);
    assert(later_keys_differ(p, "png"@, 46));
    lemma_later_keys(p, "png"@, 46);
    lemma_upsert_all_last_wins(seq![], p, 45);
    assert(later_keys_differ(p, "pdf"@, 47));
    lemma_later_keys(p, "pdf"@, 47);
    lemma_upsert_all_last_wins(seq![], p, 46);
    assert(later_keys_differ(p, "php"@, 48));
    lemma_later_keys(p, "php"@, 48);
    lemma_upsert_all_last_wins(seq![], p, 47);
    assert(later_keys_differ(p, "ppt"@, 49));
    lemma_later_keys(p, "ppt"@, 49);
    lemma_upsert_all_last_wins(seq![], p, 48);
    assert(later_keys_differ(p, "pptx"@, 50));
    lemma_later_keys(p, "pptx"@, 50);
    lemma_upsert_all_last_wins(seq![], p, 49);
    assert(later_keys_differ(p, "rar"@, 51));
    lemma_later_keys(p, "rar"@, 51);
    lemma_upsert_all_last_wins(seq![], p, 50);
    assert(later_keys_differ(p, "rtf"@, 52));
    lemma_later_keys(p, "rtf"@, 52);
    lemma_upsert_all_last_wins(seq![], p, 51);
    assert(later_keys_differ(p, "sh"@, 53));
    lemma_later_keys(p, "sh"@, 53);
    lemma_upsert_all_last_wins(seq![], p, 52);
    assert(later_keys_differ(p, "svg"@, 54));
    lemma_later_keys(p, "svg"@, 54);
    lemma_upsert_all_last_wins(seq![], p, 53);
    assert(later_keys_differ(p, "swf"@, 55));
    lemma_later_keys(p, "swf"@, 55);
    lemma_upsert_all_last_wins(seq![], p, 54);
    assert(later_keys_differ(p, "tar"@, 56));
    lemma_later_keys(p, "tar"@, 56);
    lemma_upsert_all_last_wins(seq![], p, 55);
    assert(later_keys_differ(p, "tif"@, 57));
    lemma_later_keys(p, "tif"@, 57);
    lemma_upsert_all_last_wins(seq![], p, 56);
    assert(later_keys_differ(p, "tiff"@, 58));
    lemma_later_keys(p, "tiff"@, 58);
    lemma_upsert_all_last_wins(seq![], p, 57);
    assert(later_keys_differ(p, "ts"@, 59));
    lemma_later_keys(p, "ts"@, 59);
    lemma_upsert_all_last_wins(seq![], p, 58);
    assert(later_keys_differ(p, "ttf"@, 60));
    lemma_later_keys(p, "ttf"@, 60);
    lemma_upsert_all_last_wins(seq![], p, 59);
    assert(later_keys_differ(p, "txt"@, 61));
    lemma_later_keys(p, "txt"@, 61);
    lemma_upsert_all_last_wins(seq![], p, 60);
    assert(later_keys_differ(p, "wav"@, 62));
    lemma_later_keys(p, "wav"@, 62);
    lemma_upsert_all_last_wins(seq![], p, 61);
    assert(later_keys_differ(p, "webm"@, 63));
    lemma_later_keys(p, "webm"@, 63);
    lemma_upsert_all_last_wins(seq![], p, 62);
    assert(later_keys_differ(p, "webp"@, 64));
    lemma_later_keys(p, "webp"@, 64);
    lemma_upsert_all_last_wins(seq![], p, 63);
    assert(later_keys_differ(p, "woff"@, 65));
    lemma_later_keys(p, "woff"@, 65);
    lemma_upsert_all_last_wins(seq![], p, 64);
    assert(later_keys_differ(p, "woff2"@, 66));
    lemma_later_keys(p, "woff2"@, 66);
    lemma_upsert_all_last_wins(seq![], p, 65);
    assert(later_keys_differ(p, "xhtml"@, 67));
    lemma_later_keys(p, "xhtml"@, 67);
    lemma_upsert_all_last_wins(seq![], p, 66);
    assert(later_keys_differ(p, "xls"@, 68));
    lemma_later_keys(p, "xls"@, 68);
    lemma_upsert_all_last_wins(seq![], p, 67);
    assert(later_keys_differ(p, "xlsx"@, 69));
    lemma_later_keys(p, "xlsx"@, 69);
    lemma_upsert_all_last_wins(seq![], p, 68);
    assert(later_keys_differ(p, "xml"@, 70));
    lemma_later_keys(p, "xml"@, 70);
    lemma_upsert_all_last_wins(seq![], p, 69);
    assert(later_keys_differ(p, "zip"@, 71));
    lemma_later_keys(p, "zip"@, 71);
    lemma_upsert_all_last_wins(seq![], p, 70);
}

} // verus!
