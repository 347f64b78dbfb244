//! Looking up a header in the header lines of a request.
//!
//! Every server of this project finds a header the same way: each line is
//! split on `": "`; the first line whose first piece is the header's name
//! gives the header, and its value is the second piece (up to the next `": "`,
//! if any). A line that names the header but has no `": "` at all carries no
//! value, and looking the header up fails ("broken header value").
use vstd::prelude::*;
use vstd::string::*;
use crate::text::{
    chars_of, contains, lemma_split_nonempty, lemma_split_once, matches_at, owned, ranges_view,
    same_text, split, split_bounds, views,
};

verus! {

broadcast use vstd::string::group_string_axioms;

/// The separator between a header's name and its value.
pub open spec fn header_sep() -> Seq<char> {
    seq![':', ' ']
}

/// The pieces of a header line split on `": "`.
pub open spec fn header_pieces(line: Seq<char>) -> Seq<Seq<char>> {
    split(line, header_sep())
}

/// The line's first piece is `name`.
pub open spec fn names_header(line: Seq<char>, name: Seq<char>) -> bool {
    header_pieces(line)[0] == name
}

/// Line `i` is the first line that names the header `name`.
pub open spec fn is_first_header(lines: Seq<Seq<char>>, name: Seq<char>, i: int) -> bool {
    &&& 0 <= i < lines.len()
    &&& names_header(lines[i], name)
    &&& forall|j: int| 0 <= j < i ==> !names_header(#[trigger] lines[j], name)
}

/// Some line names the header `name`.
pub open spec fn has_header(lines: Seq<Seq<char>>, name: Seq<char>) -> bool {
    exists|i: int| 0 <= i < lines.len() && names_header(#[trigger] lines[i], name)
}

/// The index of the first line that names the header `name`.
pub open spec fn first_header(lines: Seq<Seq<char>>, name: Seq<char>) -> int {
    choose|i: int| is_first_header(lines, name, i)
}

/// The first line naming `name` has no value: looking the header up fails.
pub open spec fn header_broken(lines: Seq<Seq<char>>, name: Seq<char>) -> bool {
    has_header(lines, name) && header_pieces(lines[first_header(lines, name)]).len() < 2
}

/// The value of the header `name`, when a line names it and has a value.
pub open spec fn header_value(lines: Seq<Seq<char>>, name: Seq<char>) -> Option<Seq<char>> {
    if has_header(lines, name) && !header_broken(lines, name) {
        Some(header_pieces(lines[first_header(lines, name)])[1])
    } else {
        None
    }
}

/// The value of a header is the text after `": "` on its line: when line
/// `i` is `name: v` and is the first line naming `name` (the name has no
/// `:` and `v` no `": "`), the header's value is `v`, whole.
pub proof fn lemma_header_line_value(lines: Seq<Seq<char>>, name: Seq<char>, v: Seq<char>, i: int)
    requires
        0 <= i < lines.len(),
        lines[i] == name + header_sep() + v,
        forall|m: int| 0 <= m < name.len() ==> name[m] != ':',
        !contains(v, header_sep()),
        forall|j: int| 0 <= j < i ==> !names_header(#[trigger] lines[j], name),
    ensures
        header_value(lines, name) == Some(v),
{
    let s = lines[i];
    let sep = header_sep();
    let n = name.len() as int;
    assert(s.subrange(n, n + 2) =~= sep);
    assert forall|k: int| 0 <= k < n implies !matches_at(s, sep, k) by {
        if matches_at(s, sep, k) {
            assert(s.subrange(k, k + 2)[0] == s[k]);
            assert(s[k] == name[k]);
        }
    }
    assert forall|k: int| n + 2 <= k implies !matches_at(s, sep, k) by {
        if matches_at(s, sep, k) {
            assert(v.subrange(k - n - 2, k - n) =~= s.subrange(k, k + 2));
            assert(matches_at(v, sep, k - n - 2));
        }
    }
    lemma_split_once(s, sep, n);
    assert(s.subrange(0, n) =~= name);
    assert(s.subrange(n + 2, s.len() as int) =~= v);
    assert(header_pieces(s) == seq![name, v]);
    assert(is_first_header(lines, name, i));
    assert(has_header(lines, name));
    let f = first_header(lines, name);
    assert(is_first_header(lines, name, f));
    if f < i {
        assert(!names_header(lines[f], name));
    } else if f > i {
        assert(!names_header(lines[i], name));
    }
    assert(f == i);
}

/// The outcome of looking a header up: the line and the character range of
/// the value within it, or no line naming the header, or a line naming it
/// without a value.
pub enum HeaderLookup {
    Found { line: usize, from: usize, to: usize },
    Missing,
    Broken { line: usize },
}

/// `": "`.
pub fn colon_space() -> (s: &'static str)
    ensures
        s@ == header_sep(),
{
    let s = ": ";
    proof {
        reveal_strlit(": ");
    }
    assert(s@ =~= header_sep());
    s
}

/// Finds the header `name` in `lines`.
pub fn lookup_header(lines: &Vec<String>, name: &str) -> (r: HeaderLookup)
    ensures
        match r {
            HeaderLookup::Found { line, from, to } => {
                &&& header_value(views(lines@), name@) is Some
                &&& is_first_header(views(lines@), name@, line as int)
                &&& from <= to <= lines@[line as int]@.len()
                &&& lines@[line as int]@.subrange(from as int, to as int) == header_value(
                    views(lines@),
                    name@,
                )->0
            },
            HeaderLookup::Missing => !has_header(views(lines@), name@),
            HeaderLookup::Broken { line } => {
                &&& header_broken(views(lines@), name@)
                &&& is_first_header(views(lines@), name@, line as int)
            },
        },
{
    let ghost ls = views(lines@);
    let sep = chars_of(colon_space());
    let target = chars_of(name);
    let mut i: usize = 0;
    while i < lines.len()
        invariant
            ls == views(lines@),
            sep@ == header_sep(),
            target@ == name@,
            i <= lines.len(),
            forall|j: int| 0 <= j < i ==> !names_header(#[trigger] ls[j], name@),
        decreases lines.len() - i,
    {
        let line = chars_of(lines[i].as_str());
        assert(line@ == ls[i as int]);
        let bounds = split_bounds(&line, &sep);
        proof {
            lemma_split_nonempty(line@, sep@, 0, 0);
        }
        let (lo, hi) = bounds[0];
        assert(bounds@[0].0 <= bounds@[0].1 <= line@.len());
        assert(line@.subrange(lo as int, hi as int) == ranges_view(line@, bounds@)[0]);
        let first_piece = lines[i].as_str().substring_char(lo, hi);
        if same_text(first_piece, name) {
            proof {
                assert(is_first_header(ls, name@, i as int));
                assert forall|k: int| is_first_header(ls, name@, k) implies k == i by {
                    if k < i {
                    } else if k > i {
                        assert(!names_header(ls[i as int], name@));
                    }
                }
                assert(has_header(ls, name@));
                assert(first_header(ls, name@) == i);
            }
            if bounds.len() < 2 {
                return HeaderLookup::Broken { line: i };
            }
            let (vlo, vhi) = bounds[1];
            assert(bounds@[1].0 <= bounds@[1].1 <= line@.len());
            assert(line@.subrange(vlo as int, vhi as int) == ranges_view(line@, bounds@)[1]);
            return HeaderLookup::Found { line: i, from: vlo, to: vhi };
        }
        i = i + 1;
    }
    HeaderLookup::Missing
}

/// The value of the header `name` as an owned string (`None` when no line
/// names it). A line naming it without a value is not accepted: the lookup
/// fails there.
pub fn header_string(lines: &Vec<String>, name: &str) -> (r: Option<String>)
    requires
        !header_broken(views(lines@), name@),
    ensures
        r matches Some(v) ==> header_value(views(lines@), name@) == Some(v@),
        r is None ==> header_value(views(lines@), name@) is None,
{
    match lookup_header(lines, name) {
        HeaderLookup::Found { line, from, to } => {
            let v = lines[line].as_str().substring_char(from, to);
            Some(owned(v))
        },
        HeaderLookup::Missing => None,
        HeaderLookup::Broken { line } => None,
    }
}

} // verus!
