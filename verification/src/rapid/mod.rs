//! The first request handling: a header lookup that answers `undefined`
//! for a header the request does not have.
use vstd::prelude::*;
use vstd::string::*;
use crate::headers::{header_broken, header_string, header_value};
use crate::text::{owned, views};

pub use crate::libx::{Request, Response, RESPONSE_200, RESPONSE_404};

verus! {

broadcast use vstd::string::group_string_axioms;

pub const RESPONSE_201: &'static str = "HTTP/1.1 201 Created\r\n";

/// The value of header `key` among `lines`, or `undefined` when no line
/// names it.
pub fn get_header(lines: &Vec<String>, key: &str) -> (r: String)
    requires
        !header_broken(views(lines@), key@),
    ensures
        r@ == match header_value(views(lines@), key@) {
            Some(v) => v,
            None => "undefined"@,
        },
{
    match header_string(lines, key) {
        Some(v) => v,
        None => owned("undefined"),
    }
}

} // verus!
