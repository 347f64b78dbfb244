//! Reading a request and asking it for its headers.
use vstd::prelude::*;
use vstd::string::*;
use super::{header_lines, Request};
use crate::headers::{header_broken, header_value, lookup_header, HeaderLookup};
use crate::text::{
    contains, from_utf8_lossy, lemma_split_nonempty, split, split_str, split_whitespace,
    str_contains, utf8_lossy, views, words,
};

verus! {

broadcast use vstd::string::group_string_axioms;

/// The line break of the request text.
pub open spec fn crlf() -> Seq<char> {
    seq!['\r', '\n']
}

/// The lines of a request's text.
pub open spec fn request_lines(text: Seq<char>) -> Seq<Seq<char>> {
    split(text, crlf())
}

/// The whitespace-separated words of the request line.
pub open spec fn request_words(text: Seq<char>) -> Seq<Seq<char>> {
    words(request_lines(text)[0])
}

/// `req` is what the request text `text` reads as: the first three words of
/// its first line are the method, the endpoint and the protocol, and every
/// later line is a header line.
pub open spec fn reads_as(text: Seq<char>, req: Request) -> bool {
    let ws = request_words(text);
    &&& ws.len() >= 3
    &&& req.method@ == ws[0]
    &&& req.endpoint@ == ws[1]
    &&& req.protocol@ == ws[2]
    &&& views(req.headers@) == request_lines(text).skip(1)
}

/// The request accepts gzip: its `Accept-Encoding` header exists and
/// contains `gzip`.
pub open spec fn accepts_gzip_lines(lines: Seq<Seq<char>>) -> bool {
    match header_value(lines, "Accept-Encoding"@) {
        Some(v) => contains(v, "gzip"@),
        None => false,
    }
}

/// `"\r\n"`.
pub fn crlf_str() -> (s: &'static str)
    ensures
        s@ == crlf(),
{
    let s = "\r\n";
    proof {
        reveal_strlit("\r\n");
    }
    assert(s@ =~= crlf());
    s
}

/// The lines of `text` after the first.
pub fn lines_after_first(lines: &Vec<String>) -> (r: Vec<String>)
    requires
        lines.len() >= 1,
    ensures
        views(r@) == views(lines@).skip(1),
{
    let mut r: Vec<String> = Vec::new();
    let mut k: usize = 1;
    while k < lines.len()
        invariant
            1 <= k <= lines.len(),
            views(r@) == views(lines@).subrange(1, k as int),
        decreases lines.len() - k,
    {
        let ghost before = r@;
        r.push(lines[k].clone());
        assert(views(r@) =~= views(before).push(lines@[k as int]@));
        assert(views(lines@).subrange(1, k + 1) =~= views(lines@).subrange(1, k as int).push(
            lines@[k as int]@,
        ));
        k = k + 1;
    }
    r
}

impl Request {
    /// The value of `header`: the text after `": "` on the first header line
    /// named `header`, up to a further `": "` if there is one.
    pub fn get_header(&self, header: &str) -> (r: Option<&str>)
        requires
            !header_broken(header_lines(self), header@),
        ensures
            r matches Some(v) ==> header_value(header_lines(self), header@) == Some(v@),
            r is None ==> header_value(header_lines(self), header@) is None,
    {
        match lookup_header(&self.headers, header) {
            HeaderLookup::Found { line, from, to } => Some(
                self.headers[line].as_str().substring_char(from, to),
            ),
            HeaderLookup::Missing => None,
            HeaderLookup::Broken { line } => None,
        }
    }

    /// Whether the client accepts a gzip-encoded body.
    pub fn is_gzip_accepted(&self) -> (r: bool)
        requires
            !header_broken(header_lines(self), "Accept-Encoding"@),
        ensures
            r == accepts_gzip_lines(header_lines(self)),
    {
        match self.get_header("Accept-Encoding") {
            Some(v) => str_contains(v, "gzip"),
            None => false,
        }
    }

    /// Reads a request from its text: `None` when the first line has fewer
    /// than three words, which is no request.
    pub fn parse(text: &str) -> (r: Option<Request>)
        ensures
            r matches Some(req) ==> reads_as(text@, req),
            r is None <==> request_words(text@).len() < 3,
    {
        let lines = split_str(text, crlf_str());
        proof {
            lemma_split_nonempty(text@, crlf(), 0, 0);
        }
        assert(views(lines@)[0] == lines@[0]@);
        let ws = split_whitespace(lines[0].as_str());
        if ws.len() < 3 {
            return None;
        }
        assert(views(ws@)[0] == ws@[0]@ && views(ws@)[1] == ws@[1]@ && views(ws@)[2] == ws@[2]@);
        let headers = lines_after_first(&lines);
        Some(
            Request {
                method: ws[0].clone(),
                endpoint: ws[1].clone(),
                protocol: ws[2].clone(),
                headers,
            },
        )
    }

    /// Reads a request from the bytes received on the connection (the
    /// bytes are decoded as `String::from_utf8_lossy` does).
    pub fn read(buffer: &[u8]) -> (r: Option<Request>)
        ensures
            r matches Some(req) ==> reads_as(utf8_lossy(buffer@), req),
            r is None <==> request_words(utf8_lossy(buffer@)).len() < 3,
    {
        let text = from_utf8_lossy(buffer);
        Request::parse(text.as_str())
    }
}

} // verus!
