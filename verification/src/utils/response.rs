//! Building the multi-site server's answer.
use vstd::prelude::*;
use vstd::string::*;
use crate::gzip::compress_data;
use crate::libx::encoded_body;
use crate::text::{decimal, owned, push_decimal, same_text};
use super::{RESPONSE_404, RESPONSE_500};

pub use crate::libx::Response;

verus! {

broadcast use vstd::string::group_string_axioms;

/// What to answer with: a file of the site directory `dir`, its content
/// type, whether to compress it, and the status line.
pub struct ResponseBuilder {
    pub dir: String,
    pub endpoint: String,
    pub is_gzip: bool,
    pub content_type: String,
    pub status: String,
}

/// A built answer, or the builder to try next when the file could not be
/// read.
pub enum Built {
    Ready(Response),
    Retry(ResponseBuilder),
}

/// The header block: status line, content type, length, encoding.
pub open spec fn built_headers(status: Seq<char>, ct: Seq<char>, gz: bool, len: nat) -> Seq<
    char,
> {
    status + "Content-Type: "@ + ct + "\r\nContent-Length: "@ + decimal(len) + "\r\n"@ + (if gz {
        "Content-Encoding: gzip\r\n"@
    } else {
        seq![]
    }) + "\r\n"@
}

/// The header block of the 500 answer.
pub open spec fn error_500_headers() -> Seq<char> {
    RESPONSE_500@ + "Content-Type: text/html\r\nContent-Length: 25\r\n\r\n"@
}

/// The body of the 500 answer: the bytes of `500 internal server error`.
pub open spec fn error_500_body() -> Seq<u8> {
    "500 internal server error"@.map_values(|c: char| c as u8)
}

/// The endpoint that answers with the 500 page without reading a file.
pub open spec fn error_endpoint() -> Seq<char> {
    "/500pls"@
}

impl ResponseBuilder {
    /// The file to read, `{dir}/{endpoint}`; `None` for `/500pls`, which is
    /// answered without one.
    pub fn file_path(&self) -> (r: Option<String>)
        ensures
            r matches Some(p) ==> self.endpoint@ != error_endpoint() && p@ == self.dir@ + "/"@
                + self.endpoint@,
            r is None ==> self.endpoint@ == error_endpoint(),
    {
        if same_text(self.endpoint.as_str(), "/500pls") {
            None
        } else {
            let mut p = self.dir.clone();
            p.append("/");
            p.append(self.endpoint.as_str());
            Some(p)
        }
    }

    /// The answer, given the bytes of the file read from `file_path` (or
    /// `None` when it could not be read): `/500pls` gives the 500 page; a
    /// read file is sent with the builder's status and type, compressed when
    /// asked; a missing file makes the builder try `404.html` with the 404
    /// status.
    pub fn build(self, file: Option<Vec<u8>>) -> (r: Built)
        ensures
            self.endpoint@ == error_endpoint() ==> (r matches Built::Ready(resp) && resp.headers@
                == error_500_headers() && resp.body@ == error_500_body()),
            self.endpoint@ != error_endpoint() ==> match file {
                Some(b) => (r matches Built::Ready(resp) && resp.body@ == encoded_body(
                    b@,
                    self.is_gzip,
                ) && resp.headers@ == built_headers(
                    self.status@,
                    self.content_type@,
                    self.is_gzip,
                    resp.body@.len(),
                )),
                None => (r matches Built::Retry(next) && next.dir == self.dir && next.endpoint@
                    == "404.html"@ && next.is_gzip == self.is_gzip && next.content_type
                    == self.content_type && next.status@ == RESPONSE_404@),
            },
    {
        if same_text(self.endpoint.as_str(), "/500pls") {
            return Built::Ready(self.error_500());
        }
        match file {
            Some(bytes) => {
                let body = if self.is_gzip {
                    compress_data(bytes.as_slice())
                } else {
                    bytes
                };
                let mut headers = self.status.clone();
                headers.append("Content-Type: ");
                headers.append(self.content_type.as_str());
                headers.append("\r\nContent-Length: ");
                push_decimal(&mut headers, body.len());
                headers.append("\r\n");
                if self.is_gzip {
                    headers.append("Content-Encoding: gzip\r\n");
                }
                headers.append("\r\n");
                assert(headers@ =~= built_headers(
                    self.status@,
                    self.content_type@,
                    self.is_gzip,
                    body@.len(),
                ));
                Built::Ready(Response { headers, body })
            },
            None => Built::Retry(
                ResponseBuilder {
                    dir: self.dir,
                    endpoint: owned("404.html"),
                    is_gzip: self.is_gzip,
                    content_type: self.content_type,
                    status: owned(RESPONSE_404),
                },
            ),
        }
    }

    /// The 500 answer: `500 internal server error` as HTML.
    pub fn error_500(self) -> (r: Response)
        ensures
            r.headers@ == error_500_headers(),
            r.body@ == error_500_body(),
    {
        let mut headers = owned(RESPONSE_500);
        headers.append("Content-Type: text/html\r\nContent-Length: 25\r\n\r\n");
        let text = "500 internal server error";
        proof {
            reveal_strlit("500 internal server error");
        }
        let body = text.as_bytes_vec();
        assert(vstd::string::is_ascii(text));
        assert(body@ =~= error_500_body());
        Response { headers, body }
    }
}

} // verus!
