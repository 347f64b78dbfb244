//! The template server: which route answers a request and how.
use vstd::prelude::*;
use vstd::string::*;
use vstd::utf8::encode_utf8;
use rapid::{Request, Response, Route, RESPONSE_404};
use utils::accepts_gzip;
use crate::libx::request::accepts_gzip_lines;
use crate::headers::header_broken;
use crate::libx::{encoded_body, header_lines, typed_headers, typed_response};
use crate::text::{contains, owned, same_text, str_contains};

pub mod rapid;
pub mod utils;

verus! {

broadcast use vstd::string::group_string_axioms;

/// How a request is answered: nothing serves it; a page of route `route`
/// (a stylesheet when `css`, else HTML); the icon file of route `route`; or
/// the site's `favicon.ico`.
pub enum Plan {
    NotFound,
    Page { route: usize, css: bool },
    Icon { route: usize },
    Favicon,
}

/// Route `i` is the first route whose endpoint is `endpoint`.
pub open spec fn is_first_route(routes: Seq<Route>, endpoint: Seq<char>, i: int) -> bool {
    &&& 0 <= i < routes.len()
    &&& routes[i].endpoint@ == endpoint
    &&& forall|j: int| 0 <= j < i ==> (#[trigger] routes[j]).endpoint@ != endpoint
}

/// The routes are tried in order: the first whose endpoint is the
/// request's answers it; but when a route does not match and the request is
/// for `/favicon.ico`, the site's icon answers at once.
pub open spec fn plans(routes: Seq<Route>, endpoint: Seq<char>, p: Plan) -> bool {
    let favicon = endpoint == "/favicon.ico"@;
    match p {
        Plan::NotFound => {
            &&& (favicon ==> routes.len() == 0)
            &&& forall|j: int| 0 <= j < routes.len() ==> (#[trigger] routes[j]).endpoint@ != endpoint
        },
        Plan::Favicon => favicon && routes.len() > 0 && routes[0].endpoint@ != endpoint,
        Plan::Page { route, css } => {
            &&& is_first_route(routes, endpoint, route as int)
            &&& (favicon ==> route == 0)
            &&& css == contains(endpoint, ".css"@)
            &&& (!css ==> !contains(endpoint, ".ico"@))
        },
        Plan::Icon { route } => {
            &&& is_first_route(routes, endpoint, route as int)
            &&& (favicon ==> route == 0)
            &&& !contains(endpoint, ".css"@)
            &&& contains(endpoint, ".ico"@)
        },
    }
}

/// Decides how `req` is answered.
pub fn plan(routes: &Vec<Route>, req: &Request) -> (r: Plan)
    ensures
        plans(routes@, req.endpoint@, r),
{
    let favicon = same_text(req.endpoint.as_str(), "/favicon.ico");
    let mut i: usize = 0;
    while i < routes.len()
        invariant
            i <= routes.len(),
            favicon == (req.endpoint@ == "/favicon.ico"@),
            forall|j: int| 0 <= j < i ==> (#[trigger] routes@[j]).endpoint@ != req.endpoint@,
            favicon ==> i == 0,
        decreases routes.len() - i,
    {
        if req.endpoint == routes[i].endpoint {
            if str_contains(req.endpoint.as_str(), ".css") {
                return Plan::Page { route: i, css: true };
            } else if str_contains(req.endpoint.as_str(), ".ico") {
                return Plan::Icon { route: i };
            } else {
                return Plan::Page { route: i, css: false };
            }
        } else if favicon {
            return Plan::Favicon;
        }
        i = i + 1;
    }
    Plan::NotFound
}

/// The answer with a page: `filestr` (the route's page text), as a
/// stylesheet or as HTML, compressed when the request accepts gzip.
pub fn page_response(req: &Request, css: bool, filestr: String) -> (r: Response)
    requires
        !header_broken(header_lines(req), "Accept-Encoding"@),
    ensures
        ({
            let gz = accepts_gzip_lines(header_lines(req));
            &&& r.body@ == encoded_body(encode_utf8(filestr@), gz)
            &&& r.headers@ == typed_headers(
                if css {
                    "text/css"@
                } else {
                    "text/html"@
                },
                gz,
                r.body@.len(),
            )
        }),
{
    let gz = accepts_gzip(req);
    let ct = if css {
        "text/css"
    } else {
        "text/html"
    };
    typed_response(ct, filestr.as_str().as_bytes_vec(), gz)
}

/// The path of a route's icon: `files{endpoint}`.
pub fn icon_path(req: &Request) -> (r: String)
    ensures
        r@ == "files"@ + req.endpoint@,
{
    let mut p = owned("files");
    p.append(req.endpoint.as_str());
    p
}

/// The answer with an icon file's bytes, compressed when the request
/// accepts gzip.
pub fn icon_response(req: &Request, icon: Vec<u8>) -> (r: Response)
    requires
        !header_broken(header_lines(req), "Accept-Encoding"@),
    ensures
        ({
            let gz = accepts_gzip_lines(header_lines(req));
            &&& r.body@ == encoded_body(icon@, gz)
            &&& r.headers@ == typed_headers("image/x-icon"@, gz, r.body@.len())
        }),
{
    let gz = accepts_gzip(req);
    typed_response("image/x-icon", icon, gz)
}

/// The answer with the site's `files/favicon.ico`, given its bytes, or a
/// bare 404 when it could not be read.
pub fn favicon_response(icon: Option<Vec<u8>>) -> (r: Response)
    ensures
        match icon {
            Some(b) => r.body@ == b@ && r.headers@ == typed_headers(
                "image/x-icon"@,
                false,
                b@.len(),
            ),
            None => r.headers@ == RESPONSE_404@ + "\r\n"@ && r.body@.len() == 0,
        },
{
    match icon {
        Some(b) => typed_response("image/x-icon", b, false),
        None => {
            let mut headers = owned(RESPONSE_404);
            headers.append("\r\n");
            Response { headers, body: Vec::new() }
        },
    }
}

} // verus!
