//! The first version of the routes: templates understand only `callbody`
//! and `getheader`.
use vstd::prelude::*;
use vstd::string::*;
use super::utils::{command_views, render, render_template, Scan, TemplateError};
use crate::libx::header_lines;
use crate::text::owned;

pub use super::utils::XomElement;
pub use crate::gzip::compress_data;
pub use crate::libx::{Request, Response};

verus! {

broadcast use vstd::string::group_string_axioms;

pub const RESPONSE_200: &'static str = "HTTP/1.1 200 OK\r\n";

pub const RESPONSE_201: &'static str = "HTTP/1.1 201 Created\r\n";

pub const RESPONSE_404: &'static str = "HTTP/1.1 404 Not Found\r\n";

/// A route served from a file, optionally inside a layout.
#[derive(Clone)]
pub struct Route {
    pub endpoint: String,
    pub layout: String,
    pub file: String,
}

/// A server: its port, its routes and the page for errors.
pub struct HttpBuilder {
    pub port: u16,
    pub routes: Vec<Route>,
    pub error_page: Route,
}

impl Route {
    /// The path the route's file is read from: `files/{file}`.
    pub fn file_path(&self) -> (r: String)
        ensures
            r@ == "files/"@ + self.file@,
    {
        let mut p = owned("files/");
        p.append(self.file.as_str());
        p
    }

    /// The path the route's layout is read from, when it has one:
    /// `files/{layout}`.
    pub fn layout_path(&self) -> (r: Option<String>)
        ensures
            r matches Some(p) ==> self.layout@.len() != 0 && p@ == "files/"@ + self.layout@,
            r is None ==> self.layout@.len() == 0,
    {
        if self.layout.as_str().unicode_len() == 0 {
            None
        } else {
            let mut p = owned("files/");
            p.append(self.layout.as_str());
            Some(p)
        }
    }
}

/// Rendering with this engine: no commands, only `callbody` and
/// `getheader`.
pub open spec fn render_plain(text: Seq<char>, next: Seq<char>, hs: Seq<Seq<char>>) -> Scan {
    render(text, next, hs, seq![], false)
}

/// The page of a route: its file rendered inside its layout when it has
/// one, else on its own.
pub open spec fn rendered_plain(
    layout: Seq<char>,
    hs: Seq<Seq<char>>,
    file: Seq<char>,
    layout_text: Seq<char>,
) -> Scan {
    if layout.len() != 0 {
        render_plain(layout_text, file, hs)
    } else {
        render_plain(file, seq![], hs)
    }
}

/// Renders `filestr` with `nextfilestr` as its page body.
pub fn process_commands(filestr: String, nextfilestr: String, request: &Request) -> (r: Result<
    String,
    TemplateError,
>)
    ensures
        ({
            let sc = render_plain(filestr@, nextfilestr@, header_lines(request));
            match r {
                Ok(s) => !sc.broken && s@ == sc.out,
                Err(_) => sc.broken,
            }
        }),
{
    let none: Vec<XomElement> = Vec::new();
    assert(command_views(none@) =~= seq![]);
    match render_template(filestr.as_str(), nextfilestr.as_str(), &request.headers, none, false) {
        Ok((s, c)) => Ok(s),
        Err(e) => Err(e),
    }
}

/// The text of a route's page, given its file's text and its layout's
/// (not looked at when the route has no layout).
pub fn initialize(route: &Route, request: &Request, filestr: String, layoutstr: String) -> (r:
    Result<String, TemplateError>)
    ensures
        ({
            let sc = rendered_plain(route.layout@, header_lines(request), filestr@, layoutstr@);
            match r {
                Ok(s) => !sc.broken && s@ == sc.out,
                Err(_) => sc.broken,
            }
        }),
{
    if route.layout.as_str().unicode_len() != 0 {
        process_commands(layoutstr, filestr, request)
    } else {
        process_commands(filestr, String::new(), request)
    }
}

} // verus!
