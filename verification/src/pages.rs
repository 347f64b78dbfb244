//! The commands of the index page.
use vstd::prelude::*;
use vstd::string::*;
use crate::text::owned;
use crate::xom_http::utils::{command_views, XomElement};

verus! {

broadcast use vstd::string::group_string_axioms;

/// The index page's commands: `key` is `val` and `name` is the site
/// owner's name.
pub fn index() -> (r: Vec<XomElement>)
    ensures
        command_views(r@) == seq![("key"@, "val"@), ("name"@, "yasir"@)],
{
    let mut v: Vec<XomElement> = Vec::new();
    v.push(XomElement { key: owned("key"), val: owned("val") });
    v.push(XomElement { key: owned("name"), val: get_name() });
    assert(command_views(v@) =~= seq![("key"@, "val"@), ("name"@, "yasir"@)]);
    v
}

/// The site owner's name.
pub fn get_name() -> (r: String)
    ensures
        r@ == "yasir"@,
{
    owned("yasir")
}

} // verus!
