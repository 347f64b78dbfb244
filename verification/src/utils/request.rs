//! Asking a request of the multi-site server for its headers, and preparing
//! its answer.
use vstd::prelude::*;
use vstd::string::*;
use super::response::ResponseBuilder;
use super::{RESPONSE_200, RESPONSE_500};
use crate::assoc::lookup;
use crate::config::Config;
use crate::headers::{first_header, header_broken, header_value, lookup_header, HeaderLookup};
use crate::libx::request::accepts_gzip_lines;
use crate::libx::{resolve_endpoint, resolved_endpoint};
use crate::text::{dot, last_piece, last_split_piece, owned, str_contains, views};

pub use super::Method;

verus! {

broadcast use vstd::string::group_string_axioms;

/// A request as the multi-site server reads it; `error` records a broken
/// header met while answering it.
pub struct Request {
    pub method: Method,
    pub endpoint: String,
    pub https: bool,
    pub headers: Vec<String>,
    pub error: String,
}

/// The request's header lines.
pub open spec fn lines_of(req: Request) -> Seq<Seq<char>> {
    views(req.headers@)
}

/// `after` is `before` once the header `name` has been looked up: only the
/// error may change, and it does exactly when the lookup meets a broken
/// line, which it then names.
pub open spec fn looked_up(before: Request, after: Request, name: Seq<char>) -> bool {
    let hs = lines_of(before);
    &&& after.method == before.method
    &&& after.endpoint == before.endpoint
    &&& after.https == before.https
    &&& after.headers == before.headers
    &&& if header_broken(hs, name) {
        after.error@ == "broken header value: "@ + hs[first_header(hs, name)]
    } else {
        after.error == before.error
    }
}

/// The content type of the file answering `endpoint`: the table's mimetype
/// for its extension, else the default one.
pub open spec fn content_type_for(
    table: Seq<(Seq<char>, Seq<char>)>,
    default: Seq<char>,
    endpoint: Seq<char>,
) -> Seq<char> {
    match lookup(table, last_piece(endpoint, seq!['.'])) {
        Some(m) => m,
        None => default,
    }
}

impl Request {
    /// The value of `header`. A line naming it without a value yields
    /// `None` and is recorded in `error` (`broken header value: {line}`).
    pub fn get_header(&mut self, header: &str) -> (r: Option<String>)
        ensures
            looked_up(*old(self), *final(self), header@),
            r matches Some(v) ==> header_value(lines_of(*old(self)), header@) == Some(v@),
            r is None ==> header_value(lines_of(*old(self)), header@) is None,
    {
        match lookup_header(&self.headers, header) {
            HeaderLookup::Found { line, from, to } => Some(
                owned(self.headers[line].as_str().substring_char(from, to)),
            ),
            HeaderLookup::Missing => None,
            HeaderLookup::Broken { line } => {
                let mut e = owned("broken header value: ");
                e.append(self.headers[line].as_str());
                self.error = e;
                None
            },
        }
    }

    /// Whether the client accepts a gzip-encoded body (looking up
    /// `Accept-Encoding` as `get_header` does).
    pub fn accepts_gzip(&mut self) -> (r: bool)
        ensures
            looked_up(*old(self), *final(self), "Accept-Encoding"@),
            r == accepts_gzip_lines(lines_of(*old(self))),
    {
        match self.get_header("Accept-Encoding") {
            Some(v) => str_contains(v.as_str(), "gzip"),
            None => false,
        }
    }

    /// Prepares the answer from the site directory `dir`: `/` stands for
    /// `/index.html`, the content type follows the extension through the
    /// configured table, the body is compressed when the client accepts
    /// gzip, and the status is `500` once a broken header has been met.
    pub fn handle(&mut self, dir: String, config: &Config) -> (r: ResponseBuilder)
        ensures
            looked_up(*old(self), *final(self), "Accept-Encoding"@),
            r.dir == dir,
            r.endpoint@ == resolved_endpoint(old(self).endpoint@),
            r.content_type@ == content_type_for(
                config.mimetypes.view(),
                config.default_mimetype@,
                resolved_endpoint(old(self).endpoint@),
            ),
            r.is_gzip == accepts_gzip_lines(lines_of(*old(self))),
            r.status@ == if final(self).error@.len() == 0 {
                RESPONSE_200@
            } else {
                RESPONSE_500@
            },
    {
        let endpoint = resolve_endpoint(self.endpoint.as_str());
        let ext = last_split_piece(endpoint.as_str(), dot());
        let content_type = match config.mimetypes.get(ext.as_str()) {
            Some(m) => m.clone(),
            None => config.default_mimetype.clone(),
        };
        let is_gzip = self.accepts_gzip();
        let status = if self.error.as_str().unicode_len() == 0 {
            owned(RESPONSE_200)
        } else {
            owned(RESPONSE_500)
        };
        ResponseBuilder { dir, endpoint, is_gzip, content_type, status }
    }
}

} // verus!
