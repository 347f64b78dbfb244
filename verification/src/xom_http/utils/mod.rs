//! Routes with templates, and the template language they are written in.
//!
//! A template is text in which `@key(value)` is an element. The character
//! right after the closing `)` ends the element and is not copied. `@@`
//! stands for a single `@`. Key and value are trimmed of whitespace, then:
//! - `@callbody()` inserts the page body rendered with the commands known so far;
//! - `@getheader(Name)` inserts the value of the request header `Name`;
//! - `@get(key)` inserts the value of the first command named `key`;
//! - any other `@key(value)` defines the command `key` (every command of that
//!   name gets the value, or a new one is appended).
use vstd::prelude::*;
use vstd::string::*;
use vstd::utf8::encode_utf8;
use crate::assoc::{
    distinct_keys, keeps_keys, lemma_keeps_keys_trans, lemma_upsert_keeps_keys,
    lemma_upsert_then_lookup, lookup, upsert, Entry,
};
use crate::headers::{header_broken, header_value, lookup_header, HeaderLookup};
use crate::libx::request::accepts_gzip_lines;
use crate::libx::{encoded_body, header_lines, typed_headers, typed_response};
use crate::text::{
    chars_of, contains, dot, last_piece, last_split_piece, lemma_last_piece_after, owned,
    push_char, same_text, str_contains, trim, trim_end, trim_start, trimmed, views,
};

pub mod common;
pub mod stream;

pub use crate::libx::{Request, Response};

verus! {

broadcast use vstd::string::group_string_axioms;

pub const RESPONSE_200: &'static str = "HTTP/1.1 200 OK\r\n";

pub const RESPONSE_201: &'static str = "HTTP/1.1 201 Created\r\n";

pub const RESPONSE_404: &'static str = "HTTP/1.1 404 Not Found\r\n";

/// A named value, as defined in a template or given with a route.
#[derive(Clone, Debug)]
pub struct XomElement {
    pub key: String,
    pub val: String,
}

/// Where the template scanner is: in text, after `@`, in a key, in a value,
/// or just after the closing `)`.
#[derive(Clone, Copy)]
pub enum Reading {
    Text,
    Start,
    Key,
    Val,
    End,
}

/// Why a template could not be rendered: it asked for a header whose first
/// line has no value.
#[derive(Debug)]
pub enum TemplateError {
    BrokenHeader,
}

/// A route served from a template file, with its initial commands.
#[derive(Clone)]
pub struct Route {
    pub endpoint: String,
    pub layout: String,
    pub file: String,
    pub commands: Vec<XomElement>,
}

/// A server: its port, its routes and the page for errors.
pub struct HttpBuilder {
    pub port: u16,
    pub routes: Vec<Route>,
    pub error_page: Route,
}


/// The commands as keys and values.
pub open spec fn command_views(c: Seq<XomElement>) -> Seq<Entry> {
    c.map_values(|e: XomElement| (e.key@, e.val@))
}

/// The scanner's state: output so far, commands, reading state, the key and
/// value being read, and whether rendering failed.
pub ghost struct Scan {
    pub out: Seq<char>,
    pub cmds: Seq<Entry>,
    pub read: Reading,
    pub key: Seq<char>,
    pub val: Seq<char>,
    pub broken: bool,
}

/// The state before the first character.
pub open spec fn scan_start(cmds: Seq<Entry>) -> Scan {
    Scan { out: seq![], cmds, read: Reading::Text, key: seq![], val: seq![], broken: false }
}

/// Scanning `text` from index `i` in state `st`, with `next` as the page
/// body, `hs` as the request's header lines; `with_cmds` tells whether
/// `get` and definitions are understood (the first version of the engine
/// knows only `callbody` and `getheader`).
pub open spec fn render_from(
    text: Seq<char>,
    next: Seq<char>,
    hs: Seq<Seq<char>>,
    with_cmds: bool,
    i: int,
    st: Scan,
) -> Scan
    decreases next.len(), text.len() - i, 1int,
{
    if i < 0 || i >= text.len() || st.broken {
        st
    } else {
        render_from(text, next, hs, with_cmds, i + 1, step(text, next, hs, with_cmds, i, st))
    }
}

/// The state after reading `text[i]`.
pub open spec fn step(
    text: Seq<char>,
    next: Seq<char>,
    hs: Seq<Seq<char>>,
    with_cmds: bool,
    i: int,
    st: Scan,
) -> Scan
    decreases next.len(), text.len() - i, 0int,
{
    if i < 0 || i >= text.len() {
        st
    } else {
        let ch = text[i];
        match st.read {
            Reading::Text => if ch == '@' {
                Scan { read: Reading::Start, ..st }
            } else {
                Scan { out: st.out.push(ch), ..st }
            },
            Reading::Start => if ch == '@' {
                Scan { out: st.out.push('@'), read: Reading::Text, ..st }
            } else {
                Scan { key: st.key.push(ch), read: Reading::Key, ..st }
            },
            Reading::Key => if ch == '(' {
                Scan { read: Reading::Val, ..st }
            } else {
                Scan { key: st.key.push(ch), ..st }
            },
            Reading::Val => if ch == ')' {
                Scan { read: Reading::End, ..st }
            } else {
                Scan { val: st.val.push(ch), ..st }
            },
            Reading::End => {
                let k = trimmed(st.key);
                let v = trimmed(st.val);
                let done = Scan { read: Reading::Text, key: seq![], val: seq![], ..st };
                if k == "callbody"@ {
                    if next.len() == 0 {
                        done
                    } else {
                        let body = render_from(next, seq![], hs, with_cmds, 0, scan_start(st.cmds));
                        if body.broken {
                            Scan { broken: true, ..done }
                        } else {
                            Scan { out: st.out + body.out, cmds: body.cmds, ..done }
                        }
                    }
                } else if k == "getheader"@ {
                    if header_broken(hs, v) {
                        Scan { broken: true, ..done }
                    } else {
                        match header_value(hs, v) {
                            Some(h) => Scan { out: st.out + h, ..done },
                            None => done,
                        }
                    }
                } else if with_cmds && k == "get"@ {
                    match lookup(st.cmds, v) {
                        Some(c) => Scan { out: st.out + c, ..done },
                        None => done,
                    }
                } else if with_cmds {
                    Scan { cmds: upsert(st.cmds, k, v), ..done }
                } else {
                    done
                }
            },
        }
    }
}

/// Rendering `text` with `next` as the page body and `cmds` as the commands.
pub open spec fn render(
    text: Seq<char>,
    next: Seq<char>,
    hs: Seq<Seq<char>>,
    cmds: Seq<Entry>,
    with_cmds: bool,
) -> Scan {
    render_from(text, next, hs, with_cmds, 0, scan_start(cmds))
}

/// `s` holds no `@`.
pub open spec fn no_at(s: Seq<char>) -> bool {
    forall|k: int| 0 <= k < s.len() ==> s[k] != '@'
}

/// Scanning a stretch without `@` in plain text copies it to the output.
proof fn lemma_plain_run(
    text: Seq<char>,
    next: Seq<char>,
    hs: Seq<Seq<char>>,
    with_cmds: bool,
    i: int,
    j: int,
    st: Scan,
)
    requires
        0 <= i <= j <= text.len(),
        st.read == Reading::Text,
        !st.broken,
        forall|k: int| i <= k < j ==> text[k] != '@',
    ensures
        render_from(text, next, hs, with_cmds, i, st) == render_from(
            text,
            next,
            hs,
            with_cmds,
            j,
            (Scan { out: st.out + text.subrange(i, j), ..st }),
        ),
    decreases j - i,
{
    if i < j {
        let st1 = Scan { out: st.out.push(text[i]), ..st };
        assert(step(text, next, hs, with_cmds, i, st) == st1);
        lemma_plain_run(text, next, hs, with_cmds, i + 1, j, st1);
        assert(st1.out + text.subrange(i + 1, j) =~= st.out + text.subrange(i, j));
    } else {
        assert(st.out + text.subrange(i, i) =~= st.out);
        assert(Scan { out: st.out + text.subrange(i, j), ..st } == st);
    }
}

/// Text without `@` renders as itself, and the commands stay as they were.
pub proof fn lemma_plain_text_unchanged(
    text: Seq<char>,
    next: Seq<char>,
    hs: Seq<Seq<char>>,
    cmds: Seq<Entry>,
    with_cmds: bool,
)
    requires
        no_at(text),
    ensures
        render(text, next, hs, cmds, with_cmds) == (Scan {
            out: text,
            cmds,
            read: Reading::Text,
            key: seq![],
            val: seq![],
            broken: false,
        }),
{
    let st = scan_start(cmds);
    lemma_plain_run(text, next, hs, with_cmds, 0, text.len() as int, st);
    assert(st.out + text.subrange(0, text.len() as int) =~= text);
}

/// `@@` between two stretches of text without `@` renders as one `@`, and
/// the commands stay as they were.
pub proof fn lemma_escaped_at(
    a: Seq<char>,
    b: Seq<char>,
    next: Seq<char>,
    hs: Seq<Seq<char>>,
    cmds: Seq<Entry>,
    with_cmds: bool,
)
    requires
        no_at(a),
        no_at(b),
    ensures
        render(a + seq!['@', '@'] + b, next, hs, cmds, with_cmds).out == a + seq!['@'] + b,
        render(a + seq!['@', '@'] + b, next, hs, cmds, with_cmds).cmds == cmds,
{
    let text = a + seq!['@', '@'] + b;
    let n = a.len() as int;
    let st0 = scan_start(cmds);
    lemma_plain_run(text, next, hs, with_cmds, 0, n, st0);
    let st1 = Scan { out: st0.out + text.subrange(0, n), ..st0 };
    assert(text.subrange(0, n) =~= a);
    assert(text[n] == '@');
    let st2 = Scan { read: Reading::Start, ..st1 };
    assert(step(text, next, hs, with_cmds, n, st1) == st2);
    assert(text[n + 1] == '@');
    let st3 = Scan { out: st2.out.push('@'), read: Reading::Text, ..st2 };
    assert(step(text, next, hs, with_cmds, n + 1, st2) == st3);
    assert forall|k: int| n + 2 <= k < text.len() implies text[k] != '@' by {
        assert(text[k] == b[k - n - 2]);
    }
    lemma_plain_run(text, next, hs, with_cmds, n + 2, text.len() as int, st3);
    assert(text.subrange(n + 2, text.len() as int) =~= b);
    assert(st3.out + b =~= a + seq!['@'] + b);
    let fin = Scan { out: st3.out + text.subrange(n + 2, text.len() as int), ..st3 };
    assert(render_from(text, next, hs, with_cmds, n, st1) == render_from(text, next, hs, with_cmds, n + 1, st2));
    assert(render_from(text, next, hs, with_cmds, n + 1, st2) == render_from(text, next, hs, with_cmds, n + 2, st3));
    assert(render_from(text, next, hs, with_cmds, text.len() as int, fin) == fin);
}

/// Reading a key: characters other than `(` are added to the key.
proof fn lemma_key_run(
    text: Seq<char>,
    next: Seq<char>,
    hs: Seq<Seq<char>>,
    with_cmds: bool,
    i: int,
    j: int,
    st: Scan,
)
    requires
        0 <= i <= j <= text.len(),
        st.read == Reading::Key,
        !st.broken,
        forall|k: int| i <= k < j ==> text[k] != '(',
    ensures
        render_from(text, next, hs, with_cmds, i, st) == render_from(
            text,
            next,
            hs,
            with_cmds,
            j,
            (Scan { key: st.key + text.subrange(i, j), ..st }),
        ),
    decreases j - i,
{
    if i < j {
        let st1 = Scan { key: st.key.push(text[i]), ..st };
        assert(step(text, next, hs, with_cmds, i, st) == st1);
        lemma_key_run(text, next, hs, with_cmds, i + 1, j, st1);
        assert(st1.key + text.subrange(i + 1, j) =~= st.key + text.subrange(i, j));
    } else {
        assert(st.key + text.subrange(i, i) =~= st.key);
        assert(Scan { key: st.key + text.subrange(i, j), ..st } == st);
    }
}

/// Reading a value: characters other than `)` are added to the value.
proof fn lemma_val_run(
    text: Seq<char>,
    next: Seq<char>,
    hs: Seq<Seq<char>>,
    with_cmds: bool,
    i: int,
    j: int,
    st: Scan,
)
    requires
        0 <= i <= j <= text.len(),
        st.read == Reading::Val,
        !st.broken,
        forall|k: int| i <= k < j ==> text[k] != ')',
    ensures
        render_from(text, next, hs, with_cmds, i, st) == render_from(
            text,
            next,
            hs,
            with_cmds,
            j,
            (Scan { val: st.val + text.subrange(i, j), ..st }),
        ),
    decreases j - i,
{
    if i < j {
        let st1 = Scan { val: st.val.push(text[i]), ..st };
        assert(step(text, next, hs, with_cmds, i, st) == st1);
        lemma_val_run(text, next, hs, with_cmds, i + 1, j, st1);
        assert(st1.val + text.subrange(i + 1, j) =~= st.val + text.subrange(i, j));
    } else {
        assert(st.val + text.subrange(i, i) =~= st.val);
        assert(Scan { val: st.val + text.subrange(i, j), ..st } == st);
    }
}

/// Scanning an element `@key(value)` from plain text: the scanner reaches
/// the character after `)` with `key` and `value` read, and that character
/// ends the element.
proof fn lemma_element_run(
    text: Seq<char>,
    next: Seq<char>,
    hs: Seq<Seq<char>>,
    with_cmds: bool,
    i: int,
    key: Seq<char>,
    val: Seq<char>,
    st: Scan,
)
    requires
        st.read == Reading::Text,
        !st.broken,
        st.key.len() == 0,
        st.val.len() == 0,
        0 <= i,
        i + key.len() + val.len() + 4 <= text.len(),
        text.subrange(i, i + key.len() + val.len() + 3) == seq!['@'] + key + seq!['('] + val
            + seq![')'],
        key.len() > 0,
        key[0] != '@',
        forall|m: int| 0 <= m < key.len() ==> key[m] != '(',
        forall|m: int| 0 <= m < val.len() ==> val[m] != ')',
    ensures
        ({
            let n = i + key.len() + val.len() + 3;
            render_from(text, next, hs, with_cmds, i, st) == render_from(
                text,
                next,
                hs,
                with_cmds,
                n + 1,
                step(text, next, hs, with_cmds, n, (Scan { read: Reading::End, key, val, ..st })),
            )
        }),
{
    let kl = key.len() as int;
    let vl = val.len() as int;
    let e = seq!['@'] + key + seq!['('] + val + seq![')'];
    assert forall|x: int| 0 <= x < kl + vl + 3 implies text[i + x] == #[trigger] e[x] by {
        assert(text.subrange(i, i + kl + vl + 3)[x] == text[i + x]);
    }
    assert(text[i] == e[0]);
    assert(text[i + 1] == e[1]);
    assert(text[i + 1 + kl] == e[1 + kl]);
    assert(text[i + 2 + kl + vl] == e[2 + kl + vl]);
    let st1 = Scan { read: Reading::Start, ..st };
    assert(step(text, next, hs, with_cmds, i, st) == st1);
    assert(render_from(text, next, hs, with_cmds, i, st) == render_from(text, next, hs, with_cmds, i + 1, st1));
    let st2 = Scan { key: st1.key.push(key[0]), read: Reading::Key, ..st1 };
    assert(step(text, next, hs, with_cmds, i + 1, st1) == st2);
    assert(render_from(text, next, hs, with_cmds, i + 1, st1) == render_from(text, next, hs, with_cmds, i + 2, st2));
    assert forall|m: int| i + 2 <= m < i + 1 + kl implies text[m] != '(' by {
        assert(text[m] == e[m - i]);
        assert(e[m - i] == key[m - i - 1]);
    }
    lemma_key_run(text, next, hs, with_cmds, i + 2, i + 1 + kl, st2);
    let st3 = Scan { key: st2.key + text.subrange(i + 2, i + 1 + kl), ..st2 };
    assert forall|m: int| 0 <= m < kl implies #[trigger] st3.key[m] == key[m] by {
        if m > 0 {
            assert(st3.key[m] == text[i + 1 + m]);
            assert(text[i + 1 + m] == e[1 + m]);
        }
    }
    assert(st3.key =~= key);
    let st4 = Scan { read: Reading::Val, ..st3 };
    assert(step(text, next, hs, with_cmds, i + 1 + kl, st3) == st4);
    assert(render_from(text, next, hs, with_cmds, i + 1 + kl, st3) == render_from(text, next, hs, with_cmds, i + 2 + kl, st4));
    assert forall|m: int| i + 2 + kl <= m < i + 2 + kl + vl implies text[m] != ')' by {
        assert(text[m] == e[m - i]);
        assert(e[m - i] == val[m - i - 2 - kl]);
    }
    lemma_val_run(text, next, hs, with_cmds, i + 2 + kl, i + 2 + kl + vl, st4);
    let st5 = Scan { val: st4.val + text.subrange(i + 2 + kl, i + 2 + kl + vl), ..st4 };
    assert forall|m: int| 0 <= m < vl implies #[trigger] st5.val[m] == val[m] by {
        assert(st5.val[m] == text[i + 2 + kl + m]);
        assert(text[i + 2 + kl + m] == e[2 + kl + m]);
    }
    assert(st5.val =~= val);
    let st6 = Scan { read: Reading::End, ..st5 };
    assert(step(text, next, hs, with_cmds, i + 2 + kl + vl, st5) == st6);
    assert(render_from(text, next, hs, with_cmds, i + 2 + kl + vl, st5) == render_from(text, next, hs, with_cmds, i + 3 + kl + vl, st6));
    assert(st6 == Scan { read: Reading::End, key, val, ..st });
}

/// The characters of `callbody`.
pub open spec fn callbody_key() -> Seq<char> {
    seq!['c', 'a', 'l', 'l', 'b', 'o', 'd', 'y']
}

/// A layout places the page where it calls for its body: with `a` and `b`
/// free of `@` around `@callbody()` and the one character `c` that ends
/// the element, and a non-empty page `p` free of `@`, the layout renders as
/// `a`, then `p`, then `b`, and the commands stay as they were.
pub proof fn lemma_layout_wraps_page(
    a: Seq<char>,
    c: char,
    b: Seq<char>,
    p: Seq<char>,
    hs: Seq<Seq<char>>,
    cmds: Seq<Entry>,
    with_cmds: bool,
)
    requires
        no_at(a),
        no_at(b),
        no_at(p),
        p.len() > 0,
    ensures
        ({
            let layout = a + seq!['@'] + callbody_key() + seq!['(', ')', c] + b;
            &&& render(layout, p, hs, cmds, with_cmds).out == a + p + b
            &&& render(layout, p, hs, cmds, with_cmds).cmds == cmds
            &&& !render(layout, p, hs, cmds, with_cmds).broken
        }),
{
    reveal_strlit("callbody");
    let key = callbody_key();
    assert(key =~= "callbody"@);
    let text = a + seq!['@'] + key + seq!['(', ')', c] + b;
    let n = a.len() as int;
    let st0 = scan_start(cmds);
    lemma_plain_run(text, p, hs, with_cmds, 0, n, st0);
    assert(text.subrange(0, n) =~= a);
    let st1 = Scan { out: st0.out + text.subrange(0, n), ..st0 };
    assert(text[n] == '@');
    let st2 = Scan { read: Reading::Start, ..st1 };
    assert(step(text, p, hs, with_cmds, n, st1) == st2);
    assert(render_from(text, p, hs, with_cmds, n, st1) == render_from(text, p, hs, with_cmds, n + 1, st2));
    assert(text[n + 1] == 'c');
    let st3 = Scan { key: st2.key.push('c'), read: Reading::Key, ..st2 };
    assert(step(text, p, hs, with_cmds, n + 1, st2) == st3);
    assert(render_from(text, p, hs, with_cmds, n + 1, st2) == render_from(text, p, hs, with_cmds, n + 2, st3));
    assert forall|k: int| n + 2 <= k < n + 9 implies text[k] != '(' by {
        assert(text[k] == key[k - n - 1]);
    }
    lemma_key_run(text, p, hs, with_cmds, n + 2, n + 9, st3);
    let st4 = Scan { key: st3.key + text.subrange(n + 2, n + 9), ..st3 };
    assert(st4.key =~= key);
    assert(text[n + 9] == '(');
    let st5 = Scan { read: Reading::Val, ..st4 };
    assert(step(text, p, hs, with_cmds, n + 9, st4) == st5);
    assert(render_from(text, p, hs, with_cmds, n + 9, st4) == render_from(text, p, hs, with_cmds, n + 10, st5));
    assert(text[n + 10] == ')');
    let st6 = Scan { read: Reading::End, ..st5 };
    assert(step(text, p, hs, with_cmds, n + 10, st5) == st6);
    assert(render_from(text, p, hs, with_cmds, n + 10, st5) == render_from(text, p, hs, with_cmds, n + 11, st6));
    assert(trim_start(key) == key);
    assert(trim_end(key) == key);
    assert(trimmed(key) == key);
    assert(trimmed(st6.val) == st6.val);
    lemma_plain_text_unchanged(p, seq![], hs, cmds, with_cmds);
    let st7 = Scan { out: st6.out + p, cmds, read: Reading::Text, key: seq![], val: seq![], ..st6 };
    assert(step(text, p, hs, with_cmds, n + 11, st6) == st7);
    assert(render_from(text, p, hs, with_cmds, n + 11, st6) == render_from(text, p, hs, with_cmds, n + 12, st7));
    assert forall|k: int| n + 12 <= k < text.len() implies text[k] != '@' by {
        assert(text[k] == b[k - n - 12]);
    }
    lemma_plain_run(text, p, hs, with_cmds, n + 12, text.len() as int, st7);
    let fin = Scan { out: st7.out + text.subrange(n + 12, text.len() as int), ..st7 };
    assert(text.subrange(n + 12, text.len() as int) =~= b);
    assert(render_from(text, p, hs, with_cmds, text.len() as int, fin) == fin);
    assert(fin.out =~= a + p + b);
}

/// Scanning from index `i` keeps the commands' keys distinct and in order.
proof fn lemma_render_from_keys(
    text: Seq<char>,
    next: Seq<char>,
    hs: Seq<Seq<char>>,
    with_cmds: bool,
    i: int,
    st: Scan,
)
    requires
        distinct_keys(st.cmds),
    ensures
        distinct_keys(render_from(text, next, hs, with_cmds, i, st).cmds),
        keeps_keys(st.cmds, render_from(text, next, hs, with_cmds, i, st).cmds),
    decreases next.len(), text.len() - i, 1int,
{
    if !(i < 0 || i >= text.len() || st.broken) {
        let st2 = step(text, next, hs, with_cmds, i, st);
        lemma_step_keys(text, next, hs, with_cmds, i, st);
        lemma_render_from_keys(text, next, hs, with_cmds, i + 1, st2);
        lemma_keeps_keys_trans(
            st.cmds,
            st2.cmds,
            render_from(text, next, hs, with_cmds, i + 1, st2).cmds,
        );
    }
}

/// One step of the scanner keeps the commands' keys distinct and in order.
proof fn lemma_step_keys(
    text: Seq<char>,
    next: Seq<char>,
    hs: Seq<Seq<char>>,
    with_cmds: bool,
    i: int,
    st: Scan,
)
    requires
        distinct_keys(st.cmds),
    ensures
        distinct_keys(step(text, next, hs, with_cmds, i, st).cmds),
        keeps_keys(st.cmds, step(text, next, hs, with_cmds, i, st).cmds),
    decreases next.len(), text.len() - i, 0int,
{
    if 0 <= i < text.len() && st.read == Reading::End {
        let k = trimmed(st.key);
        let v = trimmed(st.val);
        if k == "callbody"@ {
            if next.len() != 0 {
                lemma_render_from_keys(next, seq![], hs, with_cmds, 0, scan_start(st.cmds));
            }
        } else if k == "getheader"@ {
        } else if with_cmds && k == "get"@ {
        } else if with_cmds {
            lemma_upsert_keeps_keys(st.cmds, k, v);
        }
    }
}

/// Rendering keeps the commands' keys: when the given commands have
/// distinct keys, the commands after rendering begin with the same keys in
/// the same order, and still no key occurs twice.
pub proof fn lemma_commands_keep_keys(
    text: Seq<char>,
    next: Seq<char>,
    hs: Seq<Seq<char>>,
    cmds: Seq<Entry>,
    with_cmds: bool,
)
    requires
        distinct_keys(cmds),
    ensures
        distinct_keys(render(text, next, hs, cmds, with_cmds).cmds),
        keeps_keys(cmds, render(text, next, hs, cmds, with_cmds).cmds),
{
    lemma_render_from_keys(text, next, hs, with_cmds, 0, scan_start(cmds));
}

/// The characters of `get`.
pub open spec fn get_key() -> Seq<char> {
    seq!['g', 'e', 't']
}

/// A command defined in a template is read back by `@get`: between
/// stretches `a`, `b` free of `@`, rendering `@k(v)` (ended by any character
/// `c1`) followed by `@get(k)` (ended by any character `c2`) inserts the
/// value `v` (trimmed) where the `get` stands, and the commands then hold
/// `k` defined as `v` (both trimmed). The key is not one of the engine's own
/// words; neither part contains the character that ends it.
pub proof fn lemma_defined_command_read_back(
    a: Seq<char>,
    k: Seq<char>,
    v: Seq<char>,
    c1: char,
    c2: char,
    b: Seq<char>,
    next: Seq<char>,
    hs: Seq<Seq<char>>,
    cmds: Seq<Entry>,
)
    requires
        no_at(a),
        no_at(b),
        k.len() > 0,
        k[0] != '@',
        forall|m: int| 0 <= m < k.len() ==> k[m] != '(' && k[m] != ')',
        forall|m: int| 0 <= m < v.len() ==> v[m] != ')',
        trimmed(k) != "callbody"@,
        trimmed(k) != "getheader"@,
        trimmed(k) != "get"@,
    ensures
        ({
            let t = a + seq!['@'] + k + seq!['('] + v + seq![')', c1, '@'] + get_key() + seq!['(']
                + k + seq![')', c2] + b;
            &&& render(t, next, hs, cmds, true).out == a + trimmed(v) + b
            &&& render(t, next, hs, cmds, true).cmds == upsert(cmds, trimmed(k), trimmed(v))
            &&& !render(t, next, hs, cmds, true).broken
        }),
{
    reveal_strlit("get");
    reveal_strlit("callbody");
    reveal_strlit("getheader");
    let g = get_key();
    assert(g =~= "get"@);
    assert(trim_start(g) == g);
    assert(trim_end(g) == g);
    assert(trimmed(g) == g);
    let t = a + seq!['@'] + k + seq!['('] + v + seq![')', c1, '@'] + g + seq!['('] + k + seq![
        ')',
        c2,
    ] + b;
    let al = a.len() as int;
    let kl = k.len() as int;
    let vl = v.len() as int;
    let kk = trimmed(k);
    let vv = trimmed(v);
    let st0 = scan_start(cmds);
    // the text before the definition
    lemma_plain_run(t, next, hs, true, 0, al, st0);
    assert(t.subrange(0, al) =~= a);
    let st1 = Scan { out: a, ..st0 };
    assert(st0.out + t.subrange(0, al) =~= a);
    // the definition
    let n1 = al + kl + vl + 3;
    assert(t.subrange(al, al + kl + vl + 3) =~= seq!['@'] + k + seq!['('] + v + seq![')']);
    lemma_element_run(t, next, hs, true, al, k, v, st1);
    let e1 = Scan { read: Reading::End, key: k, val: v, ..st1 };
    let d1 = Scan { cmds: upsert(cmds, kk, vv), read: Reading::Text, key: seq![], val: seq![], ..st1 };
    assert(t[n1] == c1);
    assert(step(t, next, hs, true, n1, e1) == d1);
    // the `get`
    let i2 = n1 + 1;
    let n2 = i2 + 3 + kl + 3;
    assert(t.subrange(i2, i2 + 3 + kl + 3) =~= seq!['@'] + g + seq!['('] + k + seq![')']);
    assert forall|m: int| 0 <= m < g.len() implies g[m] != '(' by {}
    lemma_element_run(t, next, hs, true, i2, g, k, d1);
    let e2 = Scan { read: Reading::End, key: g, val: k, ..d1 };
    lemma_upsert_then_lookup(cmds, kk, vv);
    let d2 = Scan { out: a + vv, read: Reading::Text, key: seq![], val: seq![], ..d1 };
    assert(t[n2] == c2);
    assert(step(t, next, hs, true, n2, e2) == d2);
    // the text after
    assert forall|m: int| n2 + 1 <= m < t.len() implies t[m] != '@' by {
        assert(t[m] == b[m - n2 - 1]);
    }
    lemma_plain_run(t, next, hs, true, n2 + 1, t.len() as int, d2);
    assert(t.subrange(n2 + 1, t.len() as int) =~= b);
    let fin = Scan { out: d2.out + t.subrange(n2 + 1, t.len() as int), ..d2 };
    assert(render_from(t, next, hs, true, t.len() as int, fin) == fin);
    assert(fin.out =~= a + vv + b);
}

/// The characters of `getheader`.
pub open spec fn getheader_key() -> Seq<char> {
    seq!['g', 'e', 't', 'h', 'e', 'a', 'd', 'e', 'r']
}

/// `@getheader(Name)` inserts the whole value of the request's header: with
/// `a`, `b` free of `@` around it and any character `c` ending it, when the
/// header `Name` (trimmed) has a value, the template renders as `a`, the
/// value, then `b`, and the commands stay as they were.
pub proof fn lemma_getheader_inserts_value(
    a: Seq<char>,
    name: Seq<char>,
    c: char,
    b: Seq<char>,
    next: Seq<char>,
    hs: Seq<Seq<char>>,
    cmds: Seq<Entry>,
    with_cmds: bool,
)
    requires
        no_at(a),
        no_at(b),
        forall|m: int| 0 <= m < name.len() ==> name[m] != ')',
        header_value(hs, trimmed(name)) is Some,
    ensures
        ({
            let t = a + seq!['@'] + getheader_key() + seq!['('] + name + seq![')', c] + b;
            &&& render(t, next, hs, cmds, with_cmds).out == a + header_value(hs, trimmed(name))->0
                + b
            &&& render(t, next, hs, cmds, with_cmds).cmds == cmds
            &&& !render(t, next, hs, cmds, with_cmds).broken
        }),
{
    reveal_strlit("getheader");
    reveal_strlit("callbody");
    let g = getheader_key();
    assert(g =~= "getheader"@);
    assert(trim_start(g) == g);
    assert(trim_end(g) == g);
    assert(trimmed(g) == g);
    let t = a + seq!['@'] + g + seq!['('] + name + seq![')', c] + b;
    let al = a.len() as int;
    let nl = name.len() as int;
    let h = header_value(hs, trimmed(name))->0;
    let st0 = scan_start(cmds);
    lemma_plain_run(t, next, hs, with_cmds, 0, al, st0);
    assert(t.subrange(0, al) =~= a);
    let st1 = Scan { out: a, ..st0 };
    assert(st0.out + t.subrange(0, al) =~= a);
    let n = al + 9 + nl + 3;
    assert(t.subrange(al, al + 9 + nl + 3) =~= seq!['@'] + g + seq!['('] + name + seq![')']);
    assert forall|m: int| 0 <= m < g.len() implies g[m] != '(' by {}
    lemma_element_run(t, next, hs, with_cmds, al, g, name, st1);
    let e = Scan { read: Reading::End, key: g, val: name, ..st1 };
    let d = Scan { out: a + h, read: Reading::Text, key: seq![], val: seq![], ..st1 };
    assert(t[n] == c);
    assert(step(t, next, hs, with_cmds, n, e) == d);
    assert forall|m: int| n + 1 <= m < t.len() implies t[m] != '@' by {
        assert(t[m] == b[m - n - 1]);
    }
    lemma_plain_run(t, next, hs, with_cmds, n + 1, t.len() as int, d);
    assert(t.subrange(n + 1, t.len() as int) =~= b);
    let fin = Scan { out: d.out + t.subrange(n + 1, t.len() as int), ..d };
    assert(render_from(t, next, hs, with_cmds, t.len() as int, fin) == fin);
    assert(fin.out =~= a + h + b);
}

/// The scanner state that the executable variables stand for.
pub open spec fn scan_of(
    out: Seq<char>,
    cmds: Seq<XomElement>,
    read: Reading,
    key: Seq<char>,
    val: Seq<char>,
) -> Scan {
    Scan { out, cmds: command_views(cmds), read, key, val, broken: false }
}

/// The value of the first command named `k`.
fn find_command(cmds: &Vec<XomElement>, k: &str) -> (r: Option<String>)
    ensures
        r matches Some(v) ==> lookup(command_views(cmds@), k@) == Some(v@),
        r is None ==> lookup(command_views(cmds@), k@) is None,
{
    let ghost all = command_views(cmds@);
    let mut i: usize = 0;
    assert(all.skip(0) =~= all);
    while i < cmds.len()
        invariant
            all == command_views(cmds@),
            i <= cmds.len(),
            lookup(all, k@) == lookup(all.skip(i as int), k@),
        decreases cmds.len() - i,
    {
        assert(all.skip(i as int)[0] == all[i as int]);
        if same_text(cmds[i].key.as_str(), k) {
            return Some(cmds[i].val.clone());
        }
        assert(all.skip(i as int).drop_first() =~= all.skip(i + 1));
        i = i + 1;
    }
    assert(all.skip(i as int).len() == 0);
    None
}

/// Defines the command `k` as `v`.
fn define_command(cmds: &mut Vec<XomElement>, k: &String, v: &String)
    ensures
        command_views(final(cmds)@) == upsert(command_views(old(cmds)@), k@, v@),
{
    let ghost before = command_views(old(cmds)@);
    let mut exists = false;
    let mut i: usize = 0;
    while i < cmds.len()
        invariant
            before == command_views(old(cmds)@),
            cmds@.len() == old(cmds)@.len(),
            i <= cmds.len(),
            exists <==> exists|j: int| 0 <= j < i && (#[trigger] old(cmds)@[j]).key@ == k@,
            forall|j: int|
                0 <= j < i ==> if old(cmds)@[j].key@ == k@ {
                    (#[trigger] cmds@[j]).key@ == k@ && cmds@[j].val@ == v@
                } else {
                    cmds@[j] == old(cmds)@[j]
                },
            forall|j: int| i <= j < cmds.len() ==> #[trigger] cmds@[j] == old(cmds)@[j],
        decreases cmds.len() - i,
    {
        if cmds[i].key == *k {
            let key = cmds[i].key.clone();
            cmds.set(i, XomElement { key, val: v.clone() });
            exists = true;
        }
        i = i + 1;
    }
    if !exists {
        let ghost mid = cmds@;
        cmds.push(XomElement { key: k.clone(), val: v.clone() });
        assert forall|j: int| 0 <= j < mid.len() implies #[trigger] mid[j] == old(cmds)@[j] by {
            if old(cmds)@[j].key@ == k@ {
                assert(exists);
            }
        }
        assert(command_views(cmds@) =~= before.push((k@, v@)));
        assert forall|j: int| !(0 <= j < before.len() && (#[trigger] before[j]).0 == k@) by {
            if 0 <= j < before.len() && before[j].0 == k@ {
                assert(old(cmds)@[j].key@ == k@);
            }
        }
    } else {
        let ghost j0 = choose|j: int| 0 <= j < i && (#[trigger] old(cmds)@[j]).key@ == k@;
        assert(before[j0].0 == k@);
        assert(command_views(cmds@) =~= before.map_values(
            |c: Entry|
                if c.0 == k@ {
                    (c.0, v@)
                } else {
                    c
                },
        ));
    }
}

/// Renders `text` with `next` as the page body, the request's `headers` and
/// the commands `commands`; with `with_cmds` unset only `callbody` and
/// `getheader` are understood. Returns the rendered text and the commands
/// after it, or the error that stops rendering.
pub fn render_template(
    text: &str,
    next: &str,
    headers: &Vec<String>,
    commands: Vec<XomElement>,
    with_cmds: bool,
) -> (r: Result<(String, Vec<XomElement>), TemplateError>)
    ensures
        ({
            let sc = render(text@, next@, views(headers@), command_views(commands@), with_cmds);
            match r {
                Ok((o, c)) => !sc.broken && o@ == sc.out && command_views(c@) == sc.cmds,
                Err(_) => sc.broken,
            }
        }),
    decreases next@.len(),
{
    let ghost hs = views(headers@);
    let ghost whole = render(text@, next@, hs, command_views(commands@), with_cmds);
    let chars = chars_of(text);
    let next_len = next.unicode_len();
    let mut out = String::new();
    let mut cmds = commands;
    let mut read = Reading::Text;
    let mut key = String::new();
    let mut val = String::new();
    let mut i: usize = 0;
    while i < chars.len()
        invariant
            chars@ == text@,
            next_len == next@.len(),
            hs == views(headers@),
            whole == render(text@, next@, hs, command_views(commands@), with_cmds),
            i <= chars.len(),
            whole == render_from(
                text@,
                next@,
                hs,
                with_cmds,
                i as int,
                scan_of(out@, cmds@, read, key@, val@),
            ),
        decreases chars.len() - i,
    {
        let ghost st = scan_of(out@, cmds@, read, key@, val@);
        let ghost st2 = step(text@, next@, hs, with_cmds, i as int, st);
        assert(whole == render_from(text@, next@, hs, with_cmds, i + 1, st2));
        let ch = chars[i];
        match read {
            Reading::Text => {
                if ch == '@' {
                    read = Reading::Start;
                } else {
                    push_char(&mut out, ch);
                }
            },
            Reading::Start => {
                if ch == '@' {
                    push_char(&mut out, ch);
                    read = Reading::Text;
                } else {
                    push_char(&mut key, ch);
                    read = Reading::Key;
                }
            },
            Reading::Key => {
                if ch == '(' {
                    read = Reading::Val;
                } else {
                    push_char(&mut key, ch);
                }
            },
            Reading::Val => {
                if ch == ')' {
                    read = Reading::End;
                } else {
                    push_char(&mut val, ch);
                }
            },
            Reading::End => {
                let k = owned(trim(key.as_str()));
                let v = owned(trim(val.as_str()));
                if same_text(k.as_str(), "callbody") {
                    if next_len > 0 {
                        let empty = String::new();
                        match render_template(next, empty.as_str(), headers, cmds, with_cmds) {
                            Ok((body, c2)) => {
                                out.append(body.as_str());
                                cmds = c2;
                            },
                            Err(e) => {
                                assert(st2.broken);
                                assert(render_from(text@, next@, hs, with_cmds, i + 1, st2) == st2);
                                return Err(e);
                            },
                        }
                    }
                } else if same_text(k.as_str(), "getheader") {
                    match lookup_header(headers, v.as_str()) {
                        HeaderLookup::Found { line, from, to } => {
                            out.append(headers[line].as_str().substring_char(from, to));
                        },
                        HeaderLookup::Missing => {},
                        HeaderLookup::Broken { line } => {
                            assert(st2.broken);
                            assert(render_from(text@, next@, hs, with_cmds, i + 1, st2) == st2);
                            return Err(TemplateError::BrokenHeader);
                        },
                    }
                } else if with_cmds && same_text(k.as_str(), "get") {
                    match find_command(&cmds, v.as_str()) {
                        Some(c) => {
                            out.append(c.as_str());
                        },
                        None => {},
                    }
                } else if with_cmds {
                    define_command(&mut cmds, &k, &v);
                }
                read = Reading::Text;
                key = String::new();
                val = String::new();
            },
        }
        assert(scan_of(out@, cmds@, read, key@, val@) == st2);
        i = i + 1;
    }
    Ok((out, cmds))
}

/// Renders `filestr` with `nextfilestr` as its page body (the version of the
/// engine that keeps commands).
pub fn process_commands(
    filestr: String,
    nextfilestr: String,
    request: &Request,
    commands: Vec<XomElement>,
) -> (r: Result<(String, Vec<XomElement>), TemplateError>)
    ensures
        ({
            let sc = render(
                filestr@,
                nextfilestr@,
                views(request.headers@),
                command_views(commands@),
                true,
            );
            match r {
                Ok((o, c)) => !sc.broken && o@ == sc.out && command_views(c@) == sc.cmds,
                Err(_) => sc.broken,
            }
        }),
{
    render_template(filestr.as_str(), nextfilestr.as_str(), &request.headers, commands, true)
}

/// The content type of a page by its file's extension.
pub open spec fn page_content_type(ext: Seq<char>) -> Seq<char> {
    if ext == "css"@ {
        "text/css"@
    } else if ext == "ico"@ {
        "image/x-icon"@
    } else if ext == "rshtml"@ || ext == "html"@ {
        "text/html"@
    } else if ext == "txt"@ || ext == "text"@ {
        "text/plain"@
    } else if ext == "js"@ {
        "text/javascript"@
    } else if ext == "json"@ {
        "application/json"@
    } else if ext == "jpg"@ || ext == "jpeg"@ {
        "image/jpeg"@
    } else if ext == "png"@ {
        "image/png"@
    } else if ext == "gif"@ {
        "image/gif"@
    } else if ext == "svg"@ {
        "image/svg+xml"@
    } else if ext == "woff"@ {
        "font/woff"@
    } else {
        "text/plain"@
    }
}

/// The template server's content types: each extension the server knows
/// has its type, and every other extension is served as `text/plain`.
pub proof fn lemma_page_content_types()
    ensures
        page_content_type("css"@) == "text/css"@,
        page_content_type("ico"@) == "image/x-icon"@,
        page_content_type("rshtml"@) == "text/html"@,
        page_content_type("html"@) == "text/html"@,
        page_content_type("txt"@) == "text/plain"@,
        page_content_type("text"@) == "text/plain"@,
        page_content_type("js"@) == "text/javascript"@,
        page_content_type("json"@) == "application/json"@,
        page_content_type("jpg"@) == "image/jpeg"@,
        page_content_type("jpeg"@) == "image/jpeg"@,
        page_content_type("png"@) == "image/png"@,
        page_content_type("gif"@) == "image/gif"@,
        page_content_type("svg"@) == "image/svg+xml"@,
        page_content_type("woff"@) == "font/woff"@,
        forall|ext: Seq<char>|
            ({
                &&& ext != "css"@
                &&& ext != "ico"@
                &&& ext != "rshtml"@
                &&& ext != "html"@
                &&& ext != "txt"@
                &&& ext != "text"@
                &&& ext != "js"@
                &&& ext != "json"@
                &&& ext != "jpg"@
                &&& ext != "jpeg"@
                &&& ext != "png"@
                &&& ext != "gif"@
                &&& ext != "svg"@
                &&& ext != "woff"@
            }) ==> page_content_type(ext) == "text/plain"@,
{
    reveal_strlit("css");
    reveal_strlit("gif");
    reveal_strlit("html");
    reveal_strlit("ico");
    reveal_strlit("jpeg");
    reveal_strlit("jpg");
    reveal_strlit("js");
    reveal_strlit("json");
    reveal_strlit("png");
    reveal_strlit("rshtml");
    reveal_strlit("svg");
    reveal_strlit("text");
    reveal_strlit("txt");
    reveal_strlit("woff");
    assert("css"@[0] != "gif"@[0]);
    assert("css"@[0] != "ico"@[0]);
    assert("css"@[0] != "jpg"@[0]);
    assert("css"@[0] != "png"@[0]);
    assert("css"@[0] != "svg"@[0]);
    assert("css"@[0] != "txt"@[0]);
    assert("gif"@[0] != "ico"@[0]);
    assert("gif"@[0] != "jpg"@[0]);
    assert("gif"@[0] != "png"@[0]);
    assert("gif"@[0] != "svg"@[0]);
    assert("gif"@[0] != "txt"@[0]);
    assert("html"@[0] != "jpeg"@[0]);
    assert("html"@[0] != "json"@[0]);
    assert("html"@[0] != "text"@[0]);
    assert("html"@[0] != "woff"@[0]);
    assert("ico"@[0] != "jpg"@[0]);
    assert("ico"@[0] != "png"@[0]);
    assert("ico"@[0] != "svg"@[0]);
    assert("ico"@[0] != "txt"@[0]);
    assert("jpeg"@[1] != "json"@[1]);
    assert("jpeg"@[0] != "text"@[0]);
    assert("jpeg"@[0] != "woff"@[0]);
    assert("jpg"@[0] != "png"@[0]);
    assert("jpg"@[0] != "svg"@[0]);
    assert("jpg"@[0] != "txt"@[0]);
    assert("json"@[0] != "text"@[0]);
    assert("json"@[0] != "woff"@[0]);
    assert("png"@[0] != "svg"@[0]);
    assert("png"@[0] != "txt"@[0]);
    assert("svg"@[0] != "txt"@[0]);
    assert("text"@[0] != "woff"@[0]);
    assert("css"@.len() != "html"@.len());
    assert("css"@.len() != "jpeg"@.len());
    assert("css"@.len() != "js"@.len());
    assert("css"@.len() != "json"@.len());
    assert("css"@.len() != "rshtml"@.len());
    assert("css"@.len() != "text"@.len());
    assert("css"@.len() != "woff"@.len());
    assert("gif"@.len() != "html"@.len());
    assert("gif"@.len() != "jpeg"@.len());
    assert("gif"@.len() != "js"@.len());
    assert("gif"@.len() != "json"@.len());
    assert("gif"@.len() != "rshtml"@.len());
    assert("gif"@.len() != "text"@.len());
    assert("gif"@.len() != "woff"@.len());
    assert("html"@.len() != "ico"@.len());
    assert("html"@.len() != "jpg"@.len());
    assert("html"@.len() != "js"@.len());
    assert("html"@.len() != "png"@.len());
    assert("html"@.len() != "rshtml"@.len());
    assert("html"@.len() != "svg"@.len());
    assert("html"@.len() != "txt"@.len());
    assert("ico"@.len() != "jpeg"@.len());
    assert("ico"@.len() != "js"@.len());
    assert("ico"@.len() != "json"@.len());
    assert("ico"@.len() != "rshtml"@.len());
    assert("ico"@.len() != "text"@.len());
    assert("ico"@.len() != "woff"@.len());
    assert("jpeg"@.len() != "jpg"@.len());
    assert("jpeg"@.len() != "js"@.len());
    assert("jpeg"@.len() != "png"@.len());
    assert("jpeg"@.len() != "rshtml"@.len());
    assert("jpeg"@.len() != "svg"@.len());
    assert("jpeg"@.len() != "txt"@.len());
    assert("jpg"@.len() != "js"@.len());
    assert("jpg"@.len() != "json"@.len());
    assert("jpg"@.len() != "rshtml"@.len());
    assert("jpg"@.len() != "text"@.len());
    assert("jpg"@.len() != "woff"@.len());
    assert("js"@.len() != "json"@.len());
    assert("js"@.len() != "png"@.len());
    assert("js"@.len() != "rshtml"@.len());
    assert("js"@.len() != "svg"@.len());
    assert("js"@.len() != "text"@.len());
    assert("js"@.len() != "txt"@.len());
    assert("js"@.len() != "woff"@.len());
    assert("json"@.len() != "png"@.len());
    assert("json"@.len() != "rshtml"@.len());
    assert("json"@.len() != "svg"@.len());
    assert("json"@.len() != "txt"@.len());
    assert("png"@.len() != "rshtml"@.len());
    assert("png"@.len() != "text"@.len());
    assert("png"@.len() != "woff"@.len());
    assert("rshtml"@.len() != "svg"@.len());
    assert("rshtml"@.len() != "text"@.len());
    assert("rshtml"@.len() != "txt"@.len());
    assert("rshtml"@.len() != "woff"@.len());
    assert("svg"@.len() != "text"@.len());
    assert("svg"@.len() != "woff"@.len());
    assert("text"@.len() != "txt"@.len());
    assert("txt"@.len() != "woff"@.len());
    assert(page_content_type("css"@) == "text/css"@);
    assert(page_content_type("ico"@) == "image/x-icon"@);
    assert(page_content_type("rshtml"@) == "text/html"@);
    assert(page_content_type("html"@) == "text/html"@);
    assert(page_content_type("txt"@) == "text/plain"@);
    assert(page_content_type("text"@) == "text/plain"@);
    assert(page_content_type("js"@) == "text/javascript"@);
    assert(page_content_type("json"@) == "application/json"@);
    assert(page_content_type("jpg"@) == "image/jpeg"@);
    assert(page_content_type("jpeg"@) == "image/jpeg"@);
    assert(page_content_type("png"@) == "image/png"@);
    assert(page_content_type("gif"@) == "image/gif"@);
    assert(page_content_type("svg"@) == "image/svg+xml"@);
    assert(page_content_type("woff"@) == "font/woff"@);
}

/// The content type of a page for its file's extension.
pub fn page_content_type_of(ext: &str) -> (r: &'static str)
    ensures
        r@ == page_content_type(ext@),
{
    if same_text(ext, "css") {
        "text/css"
    } else if same_text(ext, "ico") {
        "image/x-icon"
    } else if same_text(ext, "rshtml") || same_text(ext, "html") {
        "text/html"
    } else if same_text(ext, "txt") || same_text(ext, "text") {
        "text/plain"
    } else if same_text(ext, "js") {
        "text/javascript"
    } else if same_text(ext, "json") {
        "application/json"
    } else if same_text(ext, "jpg") || same_text(ext, "jpeg") {
        "image/jpeg"
    } else if same_text(ext, "png") {
        "image/png"
    } else if same_text(ext, "gif") {
        "image/gif"
    } else if same_text(ext, "svg") {
        "image/svg+xml"
    } else if same_text(ext, "woff") {
        "font/woff"
    } else {
        "text/plain"
    }
}

/// The extension of a route's file: what follows its last `.`.
pub open spec fn file_extension(file: Seq<char>) -> Seq<char> {
    last_piece(file, seq!['.'])
}

/// A route's file extension is what follows the file name's last `.`: for
/// a file `base.ext` with no `.` in `ext`, it is `ext`.
pub proof fn lemma_file_extension(base: Seq<char>, ext: Seq<char>)
    requires
        forall|m: int| 0 <= m < ext.len() ==> ext[m] != '.',
    ensures
        file_extension(base + seq!['.'] + ext) == ext,
{
    let s = base + seq!['.'] + ext;
    let n = base.len() as int;
    assert forall|k: int| n < k < s.len() implies s[k] != '.' by {
        assert(s[k] == ext[k - n - 1]);
    }
    lemma_last_piece_after(s, '.', n);
    assert(s.subrange(n + 1, s.len() as int) =~= ext);
}

/// The page of a template route, rendered from its file (inside its layout,
/// when it has one).
pub open spec fn rendered_page(
    layout: Seq<char>,
    hs: Seq<Seq<char>>,
    cmds: Seq<Entry>,
    file: Seq<char>,
    layout_text: Seq<char>,
) -> Scan {
    if layout.len() != 0 {
        render(layout_text, file, hs, cmds, true)
    } else {
        render(file, seq![], hs, cmds, true)
    }
}

/// Whether the request's `Accept-Encoding` header contains `gzip`.
pub fn accepts_gzip(req: &Request) -> (r: bool)
    requires
        !header_broken(header_lines(req), "Accept-Encoding"@),
    ensures
        r == accepts_gzip_lines(header_lines(req)),
{
    match common::get_header(&req.headers, "Accept-Encoding") {
        Some(v) => str_contains(v.as_str(), "gzip"),
        None => false,
    }
}

/// The text of a template route's page: the file rendered with its
/// layout when the route has one (the file's text then being the layout's
/// page body), else the file alone; `layoutstr` is the layout file's text
/// and is not looked at without a layout.
pub fn initialize(
    route: &Route,
    request: &Request,
    commands: Vec<XomElement>,
    filestr: String,
    layoutstr: String,
) -> (r: Result<String, TemplateError>)
    ensures
        ({
            let sc = rendered_page(
                route.layout@,
                header_lines(request),
                command_views(commands@),
                filestr@,
                layoutstr@,
            );
            match r {
                Ok(s) => !sc.broken && s@ == sc.out,
                Err(_) => sc.broken,
            }
        }),
{
    let res = if route.layout.as_str().unicode_len() != 0 {
        process_commands(layoutstr, filestr, request, commands)
    } else {
        process_commands(filestr, String::new(), request, commands)
    };
    match res {
        Ok((s, c)) => Ok(s),
        Err(e) => Err(e),
    }
}

impl Route {
    /// The extension of the route's file.
    pub fn extension(&self) -> (r: String)
        ensures
            r@ == file_extension(self.file@),
    {
        last_split_piece(self.file.as_str(), dot())
    }

    /// Whether the route's file is a template (`.rshtml`), which is
    /// rendered; other files are sent as they are.
    pub fn is_template(&self) -> (r: bool)
        ensures
            r == (file_extension(self.file@) == "rshtml"@),
    {
        let ext = self.extension();
        same_text(ext.as_str(), "rshtml")
    }

    /// The path the route's file is read from: `files/{file}`.
    pub fn file_path(&self) -> (r: String)
        ensures
            r@ == "files/"@ + self.file@,
    {
        let mut p = owned("files/");
        p.append(self.file.as_str());
        p
    }

    /// The path the route's layout is read from, when it has one:
    /// `files/{layout}`.
    pub fn layout_path(&self) -> (r: Option<String>)
        ensures
            r matches Some(p) ==> self.layout@.len() != 0 && p@ == "files/"@ + self.layout@,
            r is None ==> self.layout@.len() == 0,
    {
        if self.layout.as_str().unicode_len() == 0 {
            None
        } else {
            let mut p = owned("files/");
            p.append(self.layout.as_str());
            Some(p)
        }
    }

    /// The answer to `req` from this route, given the text of its file and
    /// of its layout (read from `file_path` and `layout_path`; the layout is
    /// used only for a template with a layout). A template is rendered with
    /// `commands`; the body is gzip-compressed when the request's
    /// `Accept-Encoding` contains `gzip`; the content type follows the file's
    /// extension.
    pub fn init(
        self,
        req: &Request,
        commands: Vec<XomElement>,
        filestr: String,
        layoutstr: String,
    ) -> (r: Result<Response, TemplateError>)
        requires
            !header_broken(header_lines(req), "Accept-Encoding"@),
        ensures
            ({
                let ext = file_extension(self.file@);
                let sc = rendered_page(
                    self.layout@,
                    header_lines(req),
                    command_views(commands@),
                    filestr@,
                    layoutstr@,
                );
                let page = if ext == "rshtml"@ {
                    sc.out
                } else {
                    filestr@
                };
                let gz = accepts_gzip_lines(header_lines(req));
                match r {
                    Ok(resp) => {
                        &&& (ext == "rshtml"@ ==> !sc.broken)
                        &&& resp.body@ == encoded_body(encode_utf8(page), gz)
                        &&& resp.headers@ == typed_headers(
                            page_content_type(ext),
                            gz,
                            resp.body@.len(),
                        )
                    },
                    Err(_) => ext == "rshtml"@ && sc.broken,
                }
            }),
    {
        let ext = self.extension();
        let content_type = page_content_type_of(ext.as_str());
        let filestr = if same_text(ext.as_str(), "rshtml") {
            match initialize(&self, req, commands, filestr, layoutstr) {
                Ok(s) => s,
                Err(e) => {
                    return Err(e);
                },
            }
        } else {
            filestr
        };
        let gz = accepts_gzip(req);
        let bytes = filestr.as_str().as_bytes_vec();
        Ok(typed_response(content_type, bytes, gz))
    }
}

impl XomElement {
    /// An element with empty key and value.
    pub fn new() -> (r: XomElement)
        ensures
            r.key@.len() == 0,
            r.val@.len() == 0,
    {
        XomElement { key: String::new(), val: String::new() }
    }

    /// An empty list of elements.
    pub fn new_vec() -> (r: Vec<XomElement>)
        ensures
            r@.len() == 0,
    {
        Vec::new()
    }
}

} // verus!
