//! The static-file server: a request, a response, the server description,
//! and what the server answers for a request once the requested file has
//! been read (or could not be).
use vstd::prelude::*;
use vstd::string::*;
use vstd::utf8::encode_utf8;
use crate::gzip::{compress_data, gzip};
use crate::headers::{header_broken, header_string, header_value};
use crate::text::{decimal, owned, push_decimal, same_text, views};

pub mod request;
pub mod strict;

verus! {

broadcast use vstd::string::group_string_axioms;

pub const RESPONSE_200: &'static str = "HTTP/1.1 200 OK\r\n";

pub const RESPONSE_404: &'static str = "HTTP/1.1 404 Not Found\r\n";

/// A request as read from the connection: the three words of the request
/// line and the lines that follow it.
pub struct Request {
    pub method: String,
    pub endpoint: String,
    pub protocol: String,
    pub headers: Vec<String>,
}

/// A response: the status line and header block, then the body.
pub struct Response {
    pub headers: String,
    pub body: Vec<u8>,
}

/// A site served from a directory.
pub struct Server {
    pub name: String,
    pub url: String,
    pub port: u16,
    pub dir: String,
}

/// The header lines of a request, as character sequences.
pub open spec fn header_lines(req: &Request) -> Seq<Seq<char>> {
    views(req.headers@)
}

/// `"HTTP/1.1 404 Not Found\r\n\r\npage not found: {endpoint}"`: the header
/// block of the answer for an endpoint that nothing serves.
pub open spec fn not_found_headers(endpoint: Seq<char>) -> Seq<char> {
    RESPONSE_404@ + "\r\npage not found: "@ + endpoint
}

/// `"HTTP/1.1 200 OK\r\nContent-Length: {len}\r\n\r\n"`.
pub open spec fn static_ok_headers(len: nat) -> Seq<char> {
    RESPONSE_200@ + "Content-Length: "@ + decimal(len) + "\r\n\r\n"@
}

/// The file a request for `endpoint` is answered with: `/` stands for
/// `/index.html`.
pub open spec fn resolved_endpoint(endpoint: Seq<char>) -> Seq<char> {
    if endpoint == "/"@ {
        "/index.html"@
    } else {
        endpoint
    }
}

/// The header block of a successful answer of type `content_type`, with
/// `Content-Encoding: gzip` when the body is compressed, and the body's
/// length.
pub open spec fn typed_headers(content_type: Seq<char>, gz: bool, len: nat) -> Seq<char> {
    RESPONSE_200@ + "Content-Type: "@ + content_type + "\r\n"@ + (if gz {
        "Content-Encoding: gzip\r\n"@
    } else {
        seq![]
    }) + "Content-Length: "@ + decimal(len) + "\r\n\r\n"@
}

/// The body sent for `bytes`: gzip-compressed or as it is.
pub open spec fn encoded_body(bytes: Seq<u8>, gz: bool) -> Seq<u8> {
    if gz {
        gzip(bytes)
    } else {
        bytes
    }
}

/// A successful answer of type `content_type` carrying `bytes`, compressed
/// when `gz` is set; the header block ends with the body's length.
pub fn typed_response(content_type: &str, bytes: Vec<u8>, gz: bool) -> (r: Response)
    ensures
        r.body@ == encoded_body(bytes@, gz),
        r.headers@ == typed_headers(content_type@, gz, r.body@.len()),
{
    let mut headers = owned(RESPONSE_200);
    headers.append("Content-Type: ");
    headers.append(content_type);
    headers.append("\r\n");
    let body = if gz {
        headers.append("Content-Encoding: gzip\r\n");
        compress_data(bytes.as_slice())
    } else {
        bytes
    };
    headers.append("Content-Length: ");
    push_decimal(&mut headers, body.len());
    headers.append("\r\n\r\n");
    assert(headers@ =~= typed_headers(content_type@, gz, body@.len()));
    Response { headers, body }
}

/// The value of header `header` among `lines` (`None` when no line names
/// it).
pub fn get_header(lines: &Vec<String>, header: &str) -> (r: Option<String>)
    requires
        !header_broken(views(lines@), header@),
    ensures
        r matches Some(v) ==> header_value(views(lines@), header@) == Some(v@),
        r is None ==> header_value(views(lines@), header@) is None,
{
    header_string(lines, header)
}

/// The answer for an endpoint that nothing serves: the 404 status line,
/// a blank line and `page not found: {endpoint}`, with an empty body.
pub fn not_found_response(endpoint: &str) -> (r: Response)
    ensures
        r.headers@ == not_found_headers(endpoint@),
        r.body@.len() == 0,
{
    let mut headers = owned(RESPONSE_404);
    headers.append("\r\npage not found: ");
    headers.append(endpoint);
    Response { headers, body: Vec::new() }
}

/// The endpoint whose file answers a request for `endpoint`.
pub fn resolve_endpoint(endpoint: &str) -> (r: String)
    ensures
        r@ == resolved_endpoint(endpoint@),
{
    if same_text(endpoint, "/") {
        owned("/index.html")
    } else {
        owned(endpoint)
    }
}

impl Server {
    /// The path of the file read for `endpoint`: `{dir}/{endpoint}`.
    pub fn file_path(&self, endpoint: &str) -> (r: String)
        ensures
            r@ == self.dir@ + "/"@ + endpoint@,
    {
        let mut p = self.dir.clone();
        p.append("/");
        p.append(endpoint);
        p
    }

    /// The answer to a request for `endpoint` (already resolved), given the
    /// requested file's text, or `None` when it could not be read: the file
    /// with a `200` status and its length, or the 404 answer.
    pub fn handle(endpoint: &str, file: Option<String>) -> (r: Response)
        ensures
            match file {
                Some(text) => {
                    &&& r.body@ == encode_utf8(text@)
                    &&& r.headers@ == static_ok_headers(r.body@.len())
                },
                None => r.headers@ == not_found_headers(endpoint@) && r.body@.len() == 0,
            },
    {
        match file {
            Some(text) => {
                let body = text.as_str().as_bytes_vec();
                let mut headers = owned(RESPONSE_200);
                headers.append("Content-Length: ");
                push_decimal(&mut headers, body.len());
                headers.append("\r\n\r\n");
                Response { headers, body }
            },
            None => not_found_response(endpoint),
        }
    }
}

} // verus!
