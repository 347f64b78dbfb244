//! Lists of key/value pairs in which a key is looked up by its first
//! occurrence and defined by overwriting every occurrence (or appending):
//! the template commands and the mimetype table.
use vstd::prelude::*;

verus! {

/// A key and its value.
pub type Entry = (Seq<char>, Seq<char>);

/// The value of the first entry with key `k`.
pub open spec fn lookup(entries: Seq<Entry>, k: Seq<char>) -> Option<Seq<char>>
    decreases entries.len(),
{
    if entries.len() == 0 {
        None
    } else if entries[0].0 == k {
        Some(entries[0].1)
    } else {
        lookup(entries.drop_first(), k)
    }
}

/// Defining `k` as `v`: every entry with key `k` takes the value `v`; if
/// there is none, `(k, v)` is appended.
pub open spec fn upsert(entries: Seq<Entry>, k: Seq<char>, v: Seq<char>) -> Seq<Entry> {
    if exists|i: int| 0 <= i < entries.len() && (#[trigger] entries[i]).0 == k {
        entries.map_values(|c: Entry| if c.0 == k { (c.0, v) } else { c })
    } else {
        entries.push((k, v))
    }
}

/// Defining each pair of `pairs` in turn, starting from `entries`.
pub open spec fn upsert_all(entries: Seq<Entry>, pairs: Seq<Entry>) -> Seq<Entry>
    decreases pairs.len(),
{
    if pairs.len() == 0 {
        entries
    } else {
        let last = pairs.last();
        upsert(upsert_all(entries, pairs.drop_last()), last.0, last.1)
    }
}

/// A key defined as `v` is then looked up as `v`.
pub proof fn lemma_upsert_then_lookup(entries: Seq<Entry>, k: Seq<char>, v: Seq<char>)
    ensures
        lookup(upsert(entries, k, v), k) == Some(v),
    decreases entries.len(),
{
    if exists|i: int| 0 <= i < entries.len() && (#[trigger] entries[i]).0 == k {
        let m = upsert(entries, k, v);
        if entries[0].0 == k {
            assert(m[0] == (k, v));
        } else {
            let i = choose|i: int| 0 <= i < entries.len() && (#[trigger] entries[i]).0 == k;
            let rest = entries.drop_first();
            assert(rest[i - 1] == entries[i]);
            lemma_upsert_then_lookup(rest, k, v);
            assert(m.drop_first() =~= upsert(rest, k, v));
        }
    } else {
        lemma_lookup_after_absent(entries, k, v);
    }
}

/// Defining a key leaves every other key's value as it was.
pub proof fn lemma_upsert_keeps_others(
    entries: Seq<Entry>,
    k: Seq<char>,
    v: Seq<char>,
    other: Seq<char>,
)
    requires
        other != k,
    ensures
        lookup(upsert(entries, k, v), other) == lookup(entries, other),
    decreases entries.len(),
{
    let m = upsert(entries, k, v);
    if entries.len() > 0 {
        let rest = entries.drop_first();
        if exists|i: int| 0 <= i < entries.len() && (#[trigger] entries[i]).0 == k {
            assert(m[0].0 == entries[0].0);
            if entries[0].0 != other {
                if exists|i: int| 0 <= i < rest.len() && (#[trigger] rest[i]).0 == k {
                    assert(m.drop_first() =~= upsert(rest, k, v));
                    lemma_upsert_keeps_others(rest, k, v, other);
                } else {
                    assert(m.drop_first() =~= rest);
                }
                assert(lookup(m, other) == lookup(m.drop_first(), other));
            } else {
                assert(m[0] == entries[0]);
            }
        } else {
            assert(m[0] == entries[0]);
            assert(m.drop_first() =~= upsert(rest, k, v));
            assert forall|i: int| !(0 <= i < rest.len() && (#[trigger] rest[i]).0 == k) by {
                if 0 <= i < rest.len() && rest[i].0 == k {
                    assert(entries[i + 1].0 == k);
                }
            }
            lemma_upsert_keeps_others(rest, k, v, other);
            if entries[0].0 != other {
                assert(lookup(m, other) == lookup(m.drop_first(), other));
            }
        }
    } else {
        assert(m =~= seq![(k, v)]);
        assert(m.drop_first().len() == 0);
        assert(lookup(m, other) == lookup(m.drop_first(), other));
    }
}

/// Appending `(k, v)` to entries none of which has key `k` makes `k` looked
/// up as `v`.
proof fn lemma_lookup_after_absent(entries: Seq<Entry>, k: Seq<char>, v: Seq<char>)
    requires
        forall|i: int| 0 <= i < entries.len() ==> (#[trigger] entries[i]).0 != k,
    ensures
        lookup(entries.push((k, v)), k) == Some(v),
    decreases entries.len(),
{
    if entries.len() > 0 {
        let rest = entries.drop_first();
        assert forall|i: int| 0 <= i < rest.len() implies (#[trigger] rest[i]).0 != k by {
            assert(rest[i] == entries[i + 1]);
        }
        lemma_lookup_after_absent(rest, k, v);
        assert(entries.push((k, v)).drop_first() =~= rest.push((k, v)));
        assert(entries.push((k, v))[0] == entries[0]);
    }
}

/// No two entries have the same key.
pub open spec fn distinct_keys(entries: Seq<Entry>) -> bool {
    forall|i: int, j: int|
        0 <= i < j < entries.len() ==> (#[trigger] entries[i]).0 != (#[trigger] entries[j]).0
}

/// `after` begins with the keys of `before`, in the same order.
pub open spec fn keeps_keys(before: Seq<Entry>, after: Seq<Entry>) -> bool {
    &&& before.len() <= after.len()
    &&& forall|i: int| 0 <= i < before.len() ==> (#[trigger] after[i]).0 == before[i].0
}

/// Defining a key keeps the keys already there, in their order, and adds no
/// second entry for a key.
pub proof fn lemma_upsert_keeps_keys(entries: Seq<Entry>, k: Seq<char>, v: Seq<char>)
    requires
        distinct_keys(entries),
    ensures
        distinct_keys(upsert(entries, k, v)),
        keeps_keys(entries, upsert(entries, k, v)),
{
    let m = upsert(entries, k, v);
    if exists|i: int| 0 <= i < entries.len() && (#[trigger] entries[i]).0 == k {
        assert forall|i: int| 0 <= i < entries.len() implies (#[trigger] m[i]).0 == entries[i].0 by {}
        assert forall|i: int, j: int| 0 <= i < j < m.len() implies (#[trigger] m[i]).0 != (
        #[trigger] m[j]).0 by {
            assert(m[i].0 == entries[i].0 && m[j].0 == entries[j].0);
        }
    } else {
        assert forall|i: int, j: int| 0 <= i < j < m.len() implies (#[trigger] m[i]).0 != (
        #[trigger] m[j]).0 by {
            if j < entries.len() {
                assert(m[i] == entries[i] && m[j] == entries[j]);
            } else {
                assert(m[j].0 == k && m[i] == entries[i]);
            }
        }
        assert forall|i: int| 0 <= i < entries.len() implies (#[trigger] m[i]).0 == entries[i].0 by {}
    }
}

/// `keeps_keys` is transitive.
pub proof fn lemma_keeps_keys_trans(a: Seq<Entry>, b: Seq<Entry>, c: Seq<Entry>)
    requires
        keeps_keys(a, b),
        keeps_keys(b, c),
    ensures
        keeps_keys(a, c),
{
    assert forall|i: int| 0 <= i < a.len() implies (#[trigger] c[i]).0 == a[i].0 by {
        assert(c[i].0 == b[i].0);
    }
}

/// After defining every pair of `pairs` in turn, a key takes the value of
/// the last pair that defines it.
pub proof fn lemma_upsert_all_last_wins(entries: Seq<Entry>, pairs: Seq<Entry>, i: int)
    requires
        0 <= i < pairs.len(),
        forall|j: int| i < j < pairs.len() ==> (#[trigger] pairs[j]).0 != pairs[i].0,
    ensures
        lookup(upsert_all(entries, pairs), pairs[i].0) == Some(pairs[i].1),
    decreases pairs.len(),
{
    let rest = pairs.drop_last();
    if i == pairs.len() - 1 {
        lemma_upsert_then_lookup(upsert_all(entries, rest), pairs[i].0, pairs[i].1);
    } else {
        assert forall|j: int| i < j < rest.len() implies (#[trigger] rest[j]).0 != rest[i].0 by {
            assert(rest[j] == pairs[j]);
        }
        lemma_upsert_all_last_wins(entries, rest, i);
        assert(pairs.last() == pairs[pairs.len() - 1]);
        lemma_upsert_keeps_others(
            upsert_all(entries, rest),
            pairs.last().0,
            pairs.last().1,
            pairs[i].0,
        );
    }
}

} // verus!
