//! Character-level text handling shared by the request parsers, the header
//! lookups and the template engine: Unicode whitespace, trimming, substring
//! search, splitting on a separator, splitting on whitespace and decimal
//! formatting, each with the specification it is proved against.
use vstd::prelude::*;
use vstd::string::*;
use vstd::utf8::*;

verus! {

broadcast use vstd::string::group_string_axioms;

// ---------------------------------------------------------------------------
// Specifications
// ---------------------------------------------------------------------------

/// The Unicode `White_Space` property: the characters that `char::is_whitespace`
/// accepts, and therefore the ones that `str::trim` and `str::split_whitespace`
/// treat as blanks.
pub open spec fn is_ws(c: char) -> bool {
    ||| ('\t' <= c && c <= '\r')
    ||| c == ' '
    ||| c == '\u{85}'
    ||| c == '\u{a0}'
    ||| c == '\u{1680}'
    ||| ('\u{2000}' <= c && c <= '\u{200a}')
    ||| c == '\u{2028}'
    ||| c == '\u{2029}'
    ||| c == '\u{202f}'
    ||| c == '\u{205f}'
    ||| c == '\u{3000}'
}

/// `s` without its leading whitespace.
pub open spec fn trim_start(s: Seq<char>) -> Seq<char>
    decreases s.len(),
{
    if s.len() > 0 && is_ws(s[0]) {
        trim_start(s.drop_first())
    } else {
        s
    }
}

/// `s` without its trailing whitespace.
pub open spec fn trim_end(s: Seq<char>) -> Seq<char>
    decreases s.len(),
{
    if s.len() > 0 && is_ws(s.last()) {
        trim_end(s.drop_last())
    } else {
        s
    }
}

/// `s` without leading and trailing whitespace (what `str::trim` returns).
pub open spec fn trimmed(s: Seq<char>) -> Seq<char> {
    trim_end(trim_start(s))
}

/// `pat` occurs in `s` starting at index `i`.
pub open spec fn matches_at(s: Seq<char>, pat: Seq<char>, i: int) -> bool {
    &&& 0 <= i
    &&& i + pat.len() <= s.len()
    &&& s.subrange(i, i + pat.len()) == pat
}

/// `pat` occurs somewhere in `s` (what `str::contains` decides).
pub open spec fn contains(s: Seq<char>, pat: Seq<char>) -> bool {
    exists|i: int| matches_at(s, pat, i)
}

/// The pieces of `s` between the non-overlapping occurrences of `sep`,
/// found from left to right, as `str::split` yields them. `start` is where
/// the current piece began and `i` the position being examined.
pub open spec fn split_from(s: Seq<char>, sep: Seq<char>, start: int, i: int) -> Seq<Seq<char>>
    decreases s.len() - i,
{
    if sep.len() == 0 || i + sep.len() > s.len() {
        seq![s.subrange(start, s.len() as int)]
    } else if matches_at(s, sep, i) {
        seq![s.subrange(start, i)] + split_from(s, sep, i + sep.len(), i + sep.len())
    } else {
        split_from(s, sep, start, i + 1)
    }
}

/// `s.split(sep)` for a non-empty separator.
pub open spec fn split(s: Seq<char>, sep: Seq<char>) -> Seq<Seq<char>> {
    split_from(s, sep, 0, 0)
}

/// The maximal runs of non-whitespace characters of `s`, scanning from index
/// `i`; `in_word` tells whether a run began at `start`.
pub open spec fn words_from(s: Seq<char>, start: int, i: int, in_word: bool) -> Seq<Seq<char>>
    decreases s.len() - i,
{
    if i >= s.len() {
        if in_word {
            seq![s.subrange(start, s.len() as int)]
        } else {
            seq![]
        }
    } else if is_ws(s[i]) {
        if in_word {
            seq![s.subrange(start, i)] + words_from(s, i + 1, i + 1, false)
        } else {
            words_from(s, i + 1, i + 1, false)
        }
    } else if in_word {
        words_from(s, start, i + 1, true)
    } else {
        words_from(s, i, i + 1, true)
    }
}

/// `s.split_whitespace()`.
pub open spec fn words(s: Seq<char>) -> Seq<Seq<char>> {
    words_from(s, 0, 0, false)
}

/// The last piece of `s.split(sep)`: what follows the last occurrence of
/// `sep`, or all of `s` when `sep` does not occur.
pub open spec fn last_piece(s: Seq<char>, sep: Seq<char>) -> Seq<char> {
    split(s, sep).last()
}

/// The views of a sequence of strings.
pub open spec fn views(v: Seq<String>) -> Seq<Seq<char>> {
    v.map_values(|x: String| x@)
}

/// The ASCII digit for `d < 10`.
pub open spec fn digit(d: nat) -> char {
    (d + 48) as char
}

/// The decimal representation of `n`, without leading zeros.
pub open spec fn decimal(n: nat) -> Seq<char>
    decreases n,
{
    if n < 10 {
        seq![digit(n)]
    } else {
        decimal(n / 10).push(digit(n % 10))
    }
}

/// What `String::from_utf8_lossy` makes of a byte sequence.
pub uninterp spec fn utf8_lossy(bytes: Seq<u8>) -> Seq<char>;

// ---------------------------------------------------------------------------
// Calls into std that vstd does not specify
// ---------------------------------------------------------------------------

/// Appends one character (`String::push`); the contract states that the
/// string's characters grow by exactly `c`.
#[verifier::external_body]
pub fn push_char(s: &mut String, c: char)
    ensures
        final(s)@ == old(s)@.push(c),
{
    s.push(c);
}

/// `String::from_utf8_lossy`: the result is named by `utf8_lossy`; as std
/// documents, bytes that are valid UTF-8 are decoded as they are. What it
/// makes of invalid sequences (U+FFFD replacement) is left unsaid.
#[verifier::external_body]
pub fn from_utf8_lossy(bytes: &[u8]) -> (r: String)
    ensures
        r@ == utf8_lossy(bytes@),
        valid_utf8(bytes@) ==> r@ == decode_utf8(bytes@),
{
    String::from_utf8_lossy(bytes).into_owned()
}

// ---------------------------------------------------------------------------
// Executable functions
// ---------------------------------------------------------------------------

/// The characters of `s`, one per element.
pub fn chars_of(s: &str) -> (v: Vec<char>)
    ensures
        v@ == s@,
{
    let mut v: Vec<char> = Vec::new();
    for c in it: s.chars()
        invariant
            it.seq() == s@,
            v@ == it.seq().take(it.index() as int),
    {
        v.push(c);
    }
    v
}

/// `c.is_whitespace()`.
pub fn is_whitespace(c: char) -> (b: bool)
    ensures
        b == is_ws(c),
{
    ('\t' <= c && c <= '\r') || c == ' ' || c == '\u{85}' || c == '\u{a0}' || c == '\u{1680}'
        || ('\u{2000}' <= c && c <= '\u{200a}') || c == '\u{2028}' || c == '\u{2029}' || c
        == '\u{202f}' || c == '\u{205f}' || c == '\u{3000}'
}

/// Whether two strings hold the same characters.
pub fn same_text(a: &str, b: &str) -> (r: bool)
    ensures
        r == (a@ == b@),
{
    let n = a.unicode_len();
    if n != b.unicode_len() {
        return false;
    }
    let mut i: usize = 0;
    while i < n
        invariant
            n == a@.len(),
            n == b@.len(),
            i <= n,
            forall|j: int| 0 <= j < i ==> a@[j] == b@[j],
        decreases n - i,
    {
        if a.get_char(i) != b.get_char(i) {
            return false;
        }
        i = i + 1;
    }
    assert(a@ =~= b@);
    true
}

/// A `String` holding the characters of `s`.
pub fn owned(s: &str) -> (r: String)
    ensures
        r@ == s@,
{
    s.to_string()
}

proof fn lemma_trim_start_step(s: Seq<char>, a: int)
    requires
        0 <= a < s.len(),
        is_ws(s[a]),
    ensures
        trim_start(s.subrange(a, s.len() as int)) == trim_start(s.subrange(a + 1, s.len() as int)),
{
    assert(s.subrange(a, s.len() as int).drop_first() =~= s.subrange(a + 1, s.len() as int));
}

proof fn lemma_trim_end_step(s: Seq<char>, b: int)
    requires
        0 < b <= s.len(),
        is_ws(s[b - 1]),
    ensures
        trim_end(s.subrange(0, b)) == trim_end(s.subrange(0, b - 1)),
{
    assert(s.subrange(0, b).drop_last() =~= s.subrange(0, b - 1));
}

/// `s.trim()`.
pub fn trim(s: &str) -> (r: &str)
    ensures
        r@ == trimmed(s@),
{
    let v = chars_of(s);
    let n = v.len();
    let mut a: usize = 0;
    assert(s@.subrange(0, n as int) =~= s@);
    while a < n && is_whitespace(v[a])
        invariant
            v@ == s@,
            n == v.len(),
            a <= n,
            trim_start(s@) == trim_start(s@.subrange(a as int, n as int)),
        decreases n - a,
    {
        proof {
            lemma_trim_start_step(s@, a as int);
        }
        a = a + 1;
    }
    let ghost t = s@.subrange(a as int, n as int);
    assert(trim_start(t) == t);
    assert(t.subrange(0, t.len() as int) =~= t);
    let mut b: usize = n;
    while b > a && is_whitespace(v[b - 1])
        invariant
            v@ == s@,
            n == v.len(),
            a <= b <= n,
            t == s@.subrange(a as int, n as int),
            trim_end(t) == trim_end(t.subrange(0, b - a)),
        decreases b - a,
    {
        proof {
            lemma_trim_end_step(t, b - a);
        }
        b = b - 1;
    }
    assert(t.subrange(0, t.len() as int) =~= t);
    assert(t.subrange(0, b - a) =~= s@.subrange(a as int, b as int));
    s.substring_char(a, b)
}

/// Whether `pat` occurs in `s` at index `i`.
pub fn match_at(s: &Vec<char>, pat: &Vec<char>, i: usize) -> (r: bool)
    ensures
        r == matches_at(s@, pat@, i as int),
{
    if i > s.len() || pat.len() > s.len() - i {
        return false;
    }
    let mut k: usize = 0;
    while k < pat.len()
        invariant
            i + pat.len() <= s.len(),
            k <= pat.len(),
            forall|j: int| 0 <= j < k ==> s@[i + j] == pat@[j],
        decreases pat.len() - k,
    {
        if s[i + k] != pat[k] {
            assert(s@.subrange(i as int, i + pat.len())[k as int] != pat@[k as int]);
            return false;
        }
        k = k + 1;
    }
    assert(s@.subrange(i as int, i + pat.len()) =~= pat@);
    true
}

/// `s.contains(pat)`.
pub fn str_contains(s: &str, pat: &str) -> (r: bool)
    ensures
        r == contains(s@, pat@),
{
    let v = chars_of(s);
    let p = chars_of(pat);
    if p.len() > v.len() {
        return false;
    }
    let last = v.len() - p.len();
    let mut i: usize = 0;
    while i <= last
        invariant
            v@ == s@,
            p@ == pat@,
            last == v.len() - p.len(),
            i <= last,
            forall|j: int| 0 <= j < i ==> !matches_at(s@, pat@, j),
        decreases last - i,
    {
        if match_at(&v, &p, i) {
            return true;
        }
        if i == last {
            assert forall|j: int| !matches_at(s@, pat@, j) by {
                if 0 <= j < i {
                }
            }
            return false;
        }
        i = i + 1;
    }
    false
}

/// The subsequences of `s` that index pairs delimit.
pub open spec fn ranges_view(s: Seq<char>, r: Seq<(usize, usize)>) -> Seq<Seq<char>> {
    r.map_values(|b: (usize, usize)| s.subrange(b.0 as int, b.1 as int))
}

/// Every index pair is an ordered range within a text of length `n`.
pub open spec fn ranges_within(n: nat, r: Seq<(usize, usize)>) -> bool {
    forall|k: int| 0 <= k < r.len() ==> #[trigger] r[k].0 <= r[k].1 <= n
}

/// The bounds of the pieces of `s.split(sep)`, as index pairs into `s`.
pub fn split_bounds(s: &Vec<char>, sep: &Vec<char>) -> (r: Vec<(usize, usize)>)
    requires
        sep.len() > 0,
    ensures
        ranges_within(s@.len(), r@),
        ranges_view(s@, r@) == split(s@, sep@),
{
    let mut r: Vec<(usize, usize)> = Vec::new();
    let mut start: usize = 0;
    let mut i: usize = 0;
    while i <= s.len() && sep.len() <= s.len() - i
        invariant
            sep.len() > 0,
            start <= i <= s.len(),
            ranges_within(s@.len(), r@),
            split(s@, sep@) == ranges_view(s@, r@) + split_from(s@, sep@, start as int, i as int),
        decreases s.len() - i,
    {
        if match_at(s, sep, i) {
            let ghost before = r@;
            r.push((start, i));
            proof {
                let piece = s@.subrange(start as int, i as int);
                assert(ranges_view(s@, r@) =~= ranges_view(s@, before).push(piece));
                assert(split_from(s@, sep@, start as int, i as int) == seq![piece] + split_from(
                    s@,
                    sep@,
                    i + sep.len(),
                    i + sep.len(),
                ));
                assert(ranges_view(s@, before) + split_from(s@, sep@, start as int, i as int)
                    =~= ranges_view(s@, r@) + split_from(s@, sep@, i + sep.len(), i + sep.len()));
            }
            i = i + sep.len();
            start = i;
        } else {
            i = i + 1;
        }
    }
    let ghost before = r@;
    r.push((start, s.len()));
    proof {
        let piece = s@.subrange(start as int, s.len() as int);
        assert(ranges_view(s@, r@) =~= ranges_view(s@, before).push(piece));
        assert(split_from(s@, sep@, start as int, i as int) == seq![piece]);
    }
    assert(split(s@, sep@) =~= ranges_view(s@, r@));
    r
}

/// `s.split(sep)`, collected.
pub fn split_str(s: &str, sep: &str) -> (r: Vec<String>)
    requires
        sep@.len() > 0,
    ensures
        views(r@) == split(s@, sep@),
{
    let v = chars_of(s);
    let p = chars_of(sep);
    let b = split_bounds(&v, &p);
    let mut r: Vec<String> = Vec::new();
    let mut k: usize = 0;
    while k < b.len()
        invariant
            v@ == s@,
            p@ == sep@,
            ranges_within(s@.len(), b@),
            ranges_view(s@, b@) == split(s@, sep@),
            k <= b.len(),
            r@.len() == k,
            forall|j: int| 0 <= j < k ==> #[trigger] r@[j]@ == split(s@, sep@)[j],
        decreases b.len() - k,
    {
        let (lo, hi) = b[k];
        assert(b@[k as int].0 <= b@[k as int].1 <= s@.len());
        let piece = s.substring_char(lo, hi);
        assert(piece@ == ranges_view(s@, b@)[k as int]);
        r.push(owned(piece));
        k = k + 1;
    }
    assert(views(r@) =~= split(s@, sep@));
    r
}

/// `s.split_whitespace()`, collected.
pub fn split_whitespace(s: &str) -> (r: Vec<String>)
    ensures
        views(r@) == words(s@),
{
    let v = chars_of(s);
    let n = v.len();
    let mut r: Vec<String> = Vec::new();
    let mut start: usize = 0;
    let mut in_word = false;
    let mut i: usize = 0;
    while i < n
        invariant
            v@ == s@,
            n == v.len(),
            start <= i <= n,
            words(s@) == views(r@) + words_from(s@, start as int, i as int, in_word),
        decreases n - i,
    {
        if is_whitespace(v[i]) {
            if in_word {
                let piece = owned(s.substring_char(start, i));
                let ghost before = r@;
                r.push(piece);
                assert(views(r@) =~= views(before).push(piece@));
                assert(views(r@) + words_from(s@, (i + 1) as int, (i + 1) as int, false) =~= views(
                    before,
                ) + words_from(s@, start as int, i as int, in_word));
            }
            in_word = false;
            i = i + 1;
            start = i;
        } else {
            if !in_word {
                start = i;
            }
            in_word = true;
            i = i + 1;
        }
    }
    if in_word {
        let piece = owned(s.substring_char(start, n));
        let ghost before = r@;
        r.push(piece);
        assert(views(r@) =~= views(before).push(piece@));
    }
    assert(views(r@) =~= words(s@));
    r
}

/// The last piece of `s.split(sep)` (`s.split(sep).last()`, which always
/// exists).
pub fn last_split_piece(s: &str, sep: &str) -> (r: String)
    requires
        sep@.len() > 0,
    ensures
        r@ == last_piece(s@, sep@),
{
    let pieces = split_str(s, sep);
    proof {
        lemma_split_nonempty(s@, sep@, 0, 0);
    }
    let k = pieces.len() - 1;
    let last = pieces[k].clone();
    assert(views(pieces@)[k as int] == last@);
    last
}

/// `s.split(sep)` has at least one piece.
pub proof fn lemma_split_nonempty(s: Seq<char>, sep: Seq<char>, start: int, i: int)
    ensures
        split_from(s, sep, start, i).len() >= 1,
    decreases s.len() - i,
{
    if sep.len() == 0 || i + sep.len() > s.len() {
    } else if matches_at(s, sep, i) {
        lemma_split_nonempty(s, sep, i + sep.len(), i + sep.len());
    } else {
        lemma_split_nonempty(s, sep, start, i + 1);
    }
}

/// Scanning past positions where `sep` does not occur leaves the split as
/// it was.
proof fn lemma_split_skip(s: Seq<char>, sep: Seq<char>, start: int, i: int, j: int)
    requires
        sep.len() > 0,
        i <= j,
        j + sep.len() <= s.len(),
        forall|k: int| i <= k < j ==> !matches_at(s, sep, k),
    ensures
        split_from(s, sep, start, i) == split_from(s, sep, start, j),
    decreases j - i,
{
    if i < j {
        lemma_split_skip(s, sep, start, i + 1, j);
    }
}

/// Where `sep` no longer occurs, the rest of `s` is the last piece.
proof fn lemma_split_rest(s: Seq<char>, sep: Seq<char>, start: int, i: int)
    requires
        sep.len() > 0,
        forall|k: int| i <= k ==> !matches_at(s, sep, k),
    ensures
        split_from(s, sep, start, i) == seq![s.subrange(start, s.len() as int)],
    decreases s.len() - i,
{
    if i + sep.len() <= s.len() {
        lemma_split_rest(s, sep, start, i + 1);
    }
}

/// When `sep` occurs in `s` exactly once, at `n`, `s.split(sep)` gives what
/// comes before it and what comes after it.
pub proof fn lemma_split_once(s: Seq<char>, sep: Seq<char>, n: int)
    requires
        sep.len() > 0,
        matches_at(s, sep, n),
        forall|k: int| 0 <= k < n ==> !matches_at(s, sep, k),
        forall|k: int| n + sep.len() <= k ==> !matches_at(s, sep, k),
    ensures
        split(s, sep) == seq![s.subrange(0, n), s.subrange(n + sep.len(), s.len() as int)],
{
    lemma_split_skip(s, sep, 0, 0, n);
    lemma_split_rest(s, sep, n + sep.len(), n + sep.len());
    assert(split_from(s, sep, 0, n) == seq![s.subrange(0, n)] + split_from(
        s,
        sep,
        n + sep.len(),
        n + sep.len(),
    ));
    assert(split(s, sep) =~= seq![s.subrange(0, n), s.subrange(n + sep.len(), s.len() as int)]);
}

/// Scanning from `i` up to the last occurrence `n` of the character `c`,
/// the last piece is what follows `n`.
proof fn lemma_split_last_after(s: Seq<char>, c: char, n: int, start: int, i: int)
    requires
        0 <= i <= n < s.len(),
        s[n] == c,
        forall|k: int| n < k < s.len() ==> s[k] != c,
    ensures
        split_from(s, seq![c], start, i).last() == s.subrange(n + 1, s.len() as int),
    decreases n - i,
{
    let sep = seq![c];
    assert forall|k: int| n + 1 <= k implies !matches_at(s, sep, k) by {
        if matches_at(s, sep, k) {
            assert(s.subrange(k, k + 1)[0] == s[k]);
        }
    }
    if matches_at(s, sep, i) {
        if i == n {
            lemma_split_rest(s, sep, n + 1, n + 1);
        } else {
            lemma_split_last_after(s, c, n, i + 1, i + 1);
            lemma_split_nonempty(s, sep, i + 1, i + 1);
        }
    } else {
        if i == n {
            assert(s.subrange(n, n + 1) =~= sep);
        }
        lemma_split_last_after(s, c, n, start, i + 1);
    }
}

/// The last piece of `s` split on the character `c` is what follows the
/// last `c` in `s`.
pub proof fn lemma_last_piece_after(s: Seq<char>, c: char, n: int)
    requires
        0 <= n < s.len(),
        s[n] == c,
        forall|k: int| n < k < s.len() ==> s[k] != c,
    ensures
        last_piece(s, seq![c]) == s.subrange(n + 1, s.len() as int),
{
    lemma_split_last_after(s, c, n, 0, 0);
}

/// `"."`.
pub fn dot() -> (s: &'static str)
    ensures
        s@ == seq!['.'],
{
    let s = ".";
    proof {
        reveal_strlit(".");
    }
    assert(s@ =~= seq!['.']);
    s
}

/// The digit character for `d < 10`.
pub fn digit_of(d: usize) -> (c: char)
    requires
        d < 10,
    ensures
        c == digit(d as nat),
{
    let b: u8 = 48 + d as u8;
    b as char
}

/// Appends the decimal representation of `n` (what `n.to_string()` gives).
pub fn push_decimal(out: &mut String, n: usize)
    ensures
        final(out)@ == old(out)@ + decimal(n as nat),
    decreases n,
{
    if n >= 10 {
        push_decimal(out, n / 10);
    }
    push_char(out, digit_of(n % 10));
    assert(decimal(n as nat) == if n < 10 {
        seq![digit(n as nat)]
    } else {
        decimal((n / 10) as nat).push(digit((n % 10) as nat))
    });
}

} // verus!
