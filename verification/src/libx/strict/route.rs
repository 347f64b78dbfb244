//! What a route of the strict server answers.
use vstd::prelude::*;
use vstd::string::*;
use vstd::utf8::encode_utf8;
use super::Route;
use crate::headers::header_broken;
use crate::libx::request::accepts_gzip_lines;
use crate::libx::{encoded_body, header_lines, typed_headers, typed_response, Request, Response};
use crate::text::{dot, last_piece, last_split_piece, owned, same_text};

pub use crate::gzip::compress_data;

verus! {

broadcast use vstd::string::group_string_axioms;

/// The content type of a route's answer by its file's extension (a file
/// named `function` is served as HTML).
pub open spec fn route_content_type(ext: Seq<char>) -> Seq<char> {
    if ext == "css"@ {
        "text/css"@
    } else if ext == "ico"@ {
        "image/x-icon"@
    } else if ext == "html"@ {
        "text/html"@
    } else if ext == "txt"@ || ext == "text"@ {
        "text/plain"@
    } else if ext == "js"@ {
        "text/javascript"@
    } else if ext == "json"@ {
        "application/json"@
    } else if ext == "jpg"@ || ext == "jpeg"@ {
        "image/jpeg"@
    } else if ext == "png"@ {
        "image/png"@
    } else if ext == "gif"@ {
        "image/gif"@
    } else if ext == "svg"@ {
        "image/svg+xml"@
    } else if ext == "woff"@ {
        "font/woff"@
    } else if ext == "function"@ {
        "text/html"@
    } else {
        "text/plain"@
    }
}

/// The strict server's content types: each extension the server knows
/// has its type, and every other extension is served as `text/plain`.
pub proof fn lemma_route_content_types()
    ensures
        route_content_type("css"@) == "text/css"@,
        route_content_type("ico"@) == "image/x-icon"@,
        route_content_type("html"@) == "text/html"@,
        route_content_type("txt"@) == "text/plain"@,
        route_content_type("text"@) == "text/plain"@,
        route_content_type("js"@) == "text/javascript"@,
        route_content_type("json"@) == "application/json"@,
        route_content_type("jpg"@) == "image/jpeg"@,
        route_content_type("jpeg"@) == "image/jpeg"@,
        route_content_type("png"@) == "image/png"@,
        route_content_type("gif"@) == "image/gif"@,
        route_content_type("svg"@) == "image/svg+xml"@,
        route_content_type("woff"@) == "font/woff"@,
        route_content_type("function"@) == "text/html"@,
        forall|ext: Seq<char>|
            ({
                &&& ext != "css"@
                &&& ext != "ico"@
                &&& ext != "html"@
                &&& ext != "txt"@
                &&& ext != "text"@
                &&& ext != "js"@
                &&& ext != "json"@
                &&& ext != "jpg"@
                &&& ext != "jpeg"@
                &&& ext != "png"@
                &&& ext != "gif"@
                &&& ext != "svg"@
                &&& ext != "woff"@
                &&& ext != "function"@
            }) ==> route_content_type(ext) == "text/plain"@,
{
    reveal_strlit("css");
    reveal_strlit("function");
    reveal_strlit("gif");
    reveal_strlit("html");
    reveal_strlit("ico");
    reveal_strlit("jpeg");
    reveal_strlit("jpg");
    reveal_strlit("js");
    reveal_strlit("json");
    reveal_strlit("png");
    reveal_strlit("svg");
    reveal_strlit("text");
    reveal_strlit("txt");
    reveal_strlit("woff");
    assert("css"@[0] != "gif"@[0]);
    assert("css"@[0] != "ico"@[0]);
    assert("css"@[0] != "jpg"@[0]);
    assert("css"@[0] != "png"@[0]);
    assert("css"@[0] != "svg"@[0]);
    assert("css"@[0] != "txt"@[0]);
    assert("gif"@[0] != "ico"@[0]);
    assert("gif"@[0] != "jpg"@[0]);
    assert("gif"@[0] != "png"@[0]);
    assert("gif"@[0] != "svg"@[0]);
    assert("gif"@[0] != "txt"@[0]);
    assert("html"@[0] != "jpeg"@[0]);
    assert("html"@[0] != "json"@[0]);
    assert("html"@[0] != "text"@[0]);
    assert("html"@[0] != "woff"@[0]);
    assert("ico"@[0] != "jpg"@[0]);
    assert("ico"@[0] != "png"@[0]);
    assert("ico"@[0] != "svg"@[0]);
    assert("ico"@[0] != "txt"@[0]);
    assert("jpeg"@[1] != "json"@[1]);
    assert("jpeg"@[0] != "text"@[0]);
    assert("jpeg"@[0] != "woff"@[0]);
    assert("jpg"@[0] != "png"@[0]);
    assert("jpg"@[0] != "svg"@[0]);
    assert("jpg"@[0] != "txt"@[0]);
    assert("json"@[0] != "text"@[0]);
    assert("json"@[0] != "woff"@[0]);
    assert("png"@[0] != "svg"@[0]);
    assert("png"@[0] != "txt"@[0]);
    assert("svg"@[0] != "txt"@[0]);
    assert("text"@[0] != "woff"@[0]);
    assert("css"@.len() != "function"@.len());
    assert("css"@.len() != "html"@.len());
    assert("css"@.len() != "jpeg"@.len());
    assert("css"@.len() != "js"@.len());
    assert("css"@.len() != "json"@.len());
    assert("css"@.len() != "text"@.len());
    assert("css"@.len() != "woff"@.len());
    assert("function"@.len() != "gif"@.len());
    assert("function"@.len() != "html"@.len());
    assert("function"@.len() != "ico"@.len());
    assert("function"@.len() != "jpeg"@.len());
    assert("function"@.len() != "jpg"@.len());
    assert("function"@.len() != "js"@.len());
    assert("function"@.len() != "json"@.len());
    assert("function"@.len() != "png"@.len());
    assert("function"@.len() != "svg"@.len());
    assert("function"@.len() != "text"@.len());
    assert("function"@.len() != "txt"@.len());
    assert("function"@.len() != "woff"@.len());
    assert("gif"@.len() != "html"@.len());
    assert("gif"@.len() != "jpeg"@.len());
    assert("gif"@.len() != "js"@.len());
    assert("gif"@.len() != "json"@.len());
    assert("gif"@.len() != "text"@.len());
    assert("gif"@.len() != "woff"@.len());
    assert("html"@.len() != "ico"@.len());
    assert("html"@.len() != "jpg"@.len());
    assert("html"@.len() != "js"@.len());
    assert("html"@.len() != "png"@.len());
    assert("html"@.len() != "svg"@.len());
    assert("html"@.len() != "txt"@.len());
    assert("ico"@.len() != "jpeg"@.len());
    assert("ico"@.len() != "js"@.len());
    assert("ico"@.len() != "json"@.len());
    assert("ico"@.len() != "text"@.len());
    assert("ico"@.len() != "woff"@.len());
    assert("jpeg"@.len() != "jpg"@.len());
    assert("jpeg"@.len() != "js"@.len());
    assert("jpeg"@.len() != "png"@.len());
    assert("jpeg"@.len() != "svg"@.len());
    assert("jpeg"@.len() != "txt"@.len());
    assert("jpg"@.len() != "js"@.len());
    assert("jpg"@.len() != "json"@.len());
    assert("jpg"@.len() != "text"@.len());
    assert("jpg"@.len() != "woff"@.len());
    assert("js"@.len() != "json"@.len());
    assert("js"@.len() != "png"@.len());
    assert("js"@.len() != "svg"@.len());
    assert("js"@.len() != "text"@.len());
    assert("js"@.len() != "txt"@.len());
    assert("js"@.len() != "woff"@.len());
    assert("json"@.len() != "png"@.len());
    assert("json"@.len() != "svg"@.len());
    assert("json"@.len() != "txt"@.len());
    assert("png"@.len() != "text"@.len());
    assert("png"@.len() != "woff"@.len());
    assert("svg"@.len() != "text"@.len());
    assert("svg"@.len() != "woff"@.len());
    assert("text"@.len() != "txt"@.len());
    assert("txt"@.len() != "woff"@.len());
    assert(route_content_type("css"@) == "text/css"@);
    assert(route_content_type("ico"@) == "image/x-icon"@);
    assert(route_content_type("html"@) == "text/html"@);
    assert(route_content_type("txt"@) == "text/plain"@);
    assert(route_content_type("text"@) == "text/plain"@);
    assert(route_content_type("js"@) == "text/javascript"@);
    assert(route_content_type("json"@) == "application/json"@);
    assert(route_content_type("jpg"@) == "image/jpeg"@);
    assert(route_content_type("jpeg"@) == "image/jpeg"@);
    assert(route_content_type("png"@) == "image/png"@);
    assert(route_content_type("gif"@) == "image/gif"@);
    assert(route_content_type("svg"@) == "image/svg+xml"@);
    assert(route_content_type("woff"@) == "font/woff"@);
    assert(route_content_type("function"@) == "text/html"@);
}

/// The content type for a file extension.
pub fn content_type_of(ext: &str) -> (r: &'static str)
    ensures
        r@ == route_content_type(ext@),
{
    if same_text(ext, "css") {
        "text/css"
    } else if same_text(ext, "ico") {
        "image/x-icon"
    } else if same_text(ext, "html") {
        "text/html"
    } else if same_text(ext, "txt") || same_text(ext, "text") {
        "text/plain"
    } else if same_text(ext, "js") {
        "text/javascript"
    } else if same_text(ext, "json") {
        "application/json"
    } else if same_text(ext, "jpg") || same_text(ext, "jpeg") {
        "image/jpeg"
    } else if same_text(ext, "png") {
        "image/png"
    } else if same_text(ext, "gif") {
        "image/gif"
    } else if same_text(ext, "svg") {
        "image/svg+xml"
    } else if same_text(ext, "woff") {
        "font/woff"
    } else if same_text(ext, "function") {
        "text/html"
    } else {
        "text/plain"
    }
}

impl Route {
    /// The answer to `req` with `page`, the text read from `get_page`: typed
    /// by the route file's extension, gzip-compressed when the request
    /// accepts it.
    pub fn respond(self, req: &Request, page: String) -> (r: Response)
        requires
            !header_broken(header_lines(req), "Accept-Encoding"@),
        ensures
            ({
                let gz = accepts_gzip_lines(header_lines(req));
                &&& r.body@ == encoded_body(encode_utf8(page@), gz)
                &&& r.headers@ == typed_headers(
                    route_content_type(last_piece(self.file@, seq!['.'])),
                    gz,
                    r.body@.len(),
                )
            }),
    {
        let ext = last_split_piece(self.file.as_str(), dot());
        let content_type = content_type_of(ext.as_str());
        let gz = req.is_gzip_accepted();
        typed_response(content_type, page.as_str().as_bytes_vec(), gz)
    }

    /// The path of the page a route answers with: `files/{endpoint}`.
    pub fn get_page(&self) -> (r: String)
        ensures
            r@ == "files/"@ + self.endpoint@,
    {
        let mut p = owned("files/");
        p.append(self.endpoint.as_str());
        p
    }
}

} // verus!
