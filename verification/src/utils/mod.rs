//! The multi-site server: the sites, the request method, and reading a
//! request from the bytes received.
use vstd::prelude::*;
use vstd::string::*;
use crate::libx::request::{crlf, crlf_str, lines_after_first, request_lines};
use crate::text::{
    from_utf8_lossy, lemma_split_nonempty, same_text, split_str, split_whitespace, utf8_lossy,
    views, words,
};
use request::{lines_of, looked_up, Request};
use response::ResponseBuilder;
use crate::headers::header_value;
use crate::text::owned;

pub mod request;
pub mod response;

verus! {

broadcast use vstd::string::group_string_axioms;

pub const RESPONSE_200: &'static str = "HTTP/1.1 200 OK\r\n";

pub const RESPONSE_404: &'static str = "HTTP/1.1 404 Not Found\r\n";

pub const RESPONSE_500: &'static str = "HTTP/1.1 500 Internal Server Error\r\n";

/// A site: its name, the host name it answers to, the port it is forwarded
/// to (0 for none) and the directory it is served from.
#[derive(Clone)]
pub struct Server {
    pub name: String,
    pub hostname: String,
    pub port: u16,
    pub dir: String,
}

/// How a site is served.
pub enum ServerType {
    Static(String),
    PortForwarded(u16),
    Stirner(u16),
}

/// The request method.
#[derive(Clone, Copy, Debug, PartialEq, Eq, Structural)]
pub enum Method {
    GET,
    POST,
    OTHER,
}

/// The method named by a request line's first word.
pub open spec fn method_of(word: Seq<char>) -> Method {
    if word == "GET"@ {
        Method::GET
    } else if word == "POST"@ {
        Method::POST
    } else {
        Method::OTHER
    }
}

/// `req` is what the request text reads as: the method named by the first
/// word of the first line, the second word as the endpoint, every later line
/// as a header line, no error and no TLS.
pub open spec fn reads_as(text: Seq<char>, req: Request) -> bool {
    let ws = words(request_lines(text)[0]);
    &&& ws.len() >= 2
    &&& req.method == method_of(ws[0])
    &&& req.endpoint@ == ws[1]
    &&& !req.https
    &&& views(req.headers@) == request_lines(text).skip(1)
    &&& req.error@.len() == 0
}

/// A request is read with method `GET` exactly when the first word of its
/// request line is `GET`, with `POST` exactly when it is `POST`, and with
/// `OTHER` for any other first word.
pub proof fn lemma_method_follows_first_word(text: Seq<char>, req: Request)
    requires
        reads_as(text, req),
    ensures
        ({
            let first = words(request_lines(text)[0])[0];
            &&& req.method == Method::GET <==> first == "GET"@
            &&& req.method == Method::POST <==> first == "POST"@
            &&& req.method == Method::OTHER <==> (first != "GET"@ && first != "POST"@)
        }),
{
    reveal_strlit("GET");
    reveal_strlit("POST");
    assert("GET"@.len() != "POST"@.len());
}

/// Reads a request from the bytes received on the connection (decoded as
/// `String::from_utf8_lossy` does); `None` when the first line has fewer
/// than two words, which is no request.
pub fn stream_read(buffer: &[u8]) -> (r: Option<Request>)
    ensures
        r matches Some(req) ==> reads_as(utf8_lossy(buffer@), req),
        r is None <==> words(request_lines(utf8_lossy(buffer@))[0]).len() < 2,
{
    let text = from_utf8_lossy(buffer);
    let lines = split_str(text.as_str(), crlf_str());
    proof {
        lemma_split_nonempty(text@, crlf(), 0, 0);
    }
    assert(views(lines@)[0] == lines@[0]@);
    let ws = split_whitespace(lines[0].as_str());
    if ws.len() < 2 {
        return None;
    }
    assert(views(ws@)[0] == ws@[0]@ && views(ws@)[1] == ws@[1]@);
    let method = if same_text(ws[0].as_str(), "GET") {
        Method::GET
    } else if same_text(ws[0].as_str(), "POST") {
        Method::POST
    } else {
        Method::OTHER
    };
    let headers = lines_after_first(&lines);
    Some(
        Request {
            method,
            endpoint: ws[1].clone(),
            https: false,
            headers,
            error: String::new(),
        },
    )
}

/// What the server does with a request: answer 500 when it names no host,
/// forward it to a site's port, serve it from site `i`'s directory, or
/// leave it unanswered when no site has its host name.
pub enum Dispatch {
    MissingHost(ResponseBuilder),
    Forward(u16),
    Static(usize),
    Unserved,
}

/// Site `i` is the first site with host name `host`.
pub open spec fn is_first_site(servers: Seq<Server>, host: Seq<char>, i: int) -> bool {
    &&& 0 <= i < servers.len()
    &&& servers[i].hostname@ == host
    &&& forall|j: int| 0 <= j < i ==> (#[trigger] servers[j]).hostname@ != host
}

/// Decides what to do with `req` among `servers`: by its `Host` header, the
/// first site with that host name serves it, by forwarding when the site
/// has a port, from its directory otherwise.
pub fn dispatch(req: &mut Request, servers: &Vec<Server>) -> (r: Dispatch)
    ensures
        looked_up(*old(req), *final(req), "Host"@),
        header_value(lines_of(*old(req)), "Host"@) is None <==> r is MissingHost,
        r matches Dispatch::MissingHost(b) ==> b.dir@.len() == 0 && b.endpoint@.len() == 0
            && !b.is_gzip && b.content_type@ == "text/html"@ && b.status@ == RESPONSE_500@,
        r matches Dispatch::Forward(port) ==> port != 0 && exists|i: int|
            #![trigger is_first_site(servers@, header_value(lines_of(*old(req)), "Host"@)->0, i)]
            is_first_site(servers@, header_value(lines_of(*old(req)), "Host"@)->0, i)
                && servers@[i].port == port,
        r matches Dispatch::Static(i) ==> is_first_site(
            servers@,
            header_value(lines_of(*old(req)), "Host"@)->0,
            i as int,
        ) && servers@[i as int].port == 0,
        r is Unserved ==> forall|j: int|
            0 <= j < servers@.len() ==> (#[trigger] servers@[j]).hostname@ != header_value(
                lines_of(*old(req)),
                "Host"@,
            )->0,
{
    let host = match req.get_header("Host") {
        Some(h) => h,
        None => {
            return Dispatch::MissingHost(
                ResponseBuilder {
                    dir: String::new(),
                    endpoint: String::new(),
                    is_gzip: false,
                    content_type: owned("text/html"),
                    status: owned(RESPONSE_500),
                },
            );
        },
    };
    let mut i: usize = 0;
    while i < servers.len()
        invariant
            looked_up(*old(req), *req, "Host"@),
            header_value(lines_of(*old(req)), "Host"@) == Some(host@),
            i <= servers.len(),
            forall|j: int| 0 <= j < i ==> (#[trigger] servers@[j]).hostname@ != host@,
        decreases servers.len() - i,
    {
        if servers[i].hostname == host {
            let port = servers[i].port;
            if port != 0 {
                let ghost h = header_value(lines_of(*old(req)), "Host"@)->0;
                assert(h == host@);
                assert(is_first_site(servers@, h, i as int));
                assert(exists|k: int|
                    #![trigger is_first_site(servers@, h, k)]
                    is_first_site(servers@, h, k) && servers@[k].port == port);
                return Dispatch::Forward(port);
            } else {
                return Dispatch::Static(i);
            }
        }
        i = i + 1;
    }
    Dispatch::Unserved
}

} // verus!
