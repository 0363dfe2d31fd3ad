//! Sequences of `(key, value)` entries with distinct string keys: the
//! insertion-ordered maps that rooms, peers and channel registries are made of.

use vstd::prelude::*;

verus! {

/// No key occurs twice.
pub open spec fn distinct_keys<V>(s: Seq<(Seq<char>, V)>) -> bool {
    forall|i: int, j: int|
        0 <= i < s.len() && 0 <= j < s.len() && i != j ==> #[trigger] s[i].0 != #[trigger] s[j].0
}

/// Some entry has key `k`.
pub open spec fn has_key<V>(s: Seq<(Seq<char>, V)>, k: Seq<char>) -> bool {
    exists|i: int| 0 <= i < s.len() && #[trigger] s[i].0 == k
}

/// The position of the entry with key `k` (meaningful when `has_key(s, k)`).
pub open spec fn key_index<V>(s: Seq<(Seq<char>, V)>, k: Seq<char>) -> int {
    choose|i: int| 0 <= i < s.len() && #[trigger] s[i].0 == k
}

/// The value stored under `k`, if any.
pub open spec fn lookup<V>(s: Seq<(Seq<char>, V)>, k: Seq<char>) -> Option<V> {
    if has_key(s, k) {
        Some(s[key_index(s, k)].1)
    } else {
        None
    }
}

/// `s` with `(k, v)` stored: in place of the entry with key `k`, or appended.
pub open spec fn upsert<V>(s: Seq<(Seq<char>, V)>, k: Seq<char>, v: V) -> Seq<(Seq<char>, V)> {
    if has_key(s, k) {
        s.update(key_index(s, k), (k, v))
    } else {
        s.push((k, v))
    }
}

/// `s` without the entry with key `k`; the other entries keep their order.
pub open spec fn without<V>(s: Seq<(Seq<char>, V)>, k: Seq<char>) -> Seq<(Seq<char>, V)> {
    if has_key(s, k) {
        s.remove(key_index(s, k))
    } else {
        s
    }
}

/// With distinct keys, the entry at position `i` is the one found by its key.
pub proof fn lemma_key_index<V>(s: Seq<(Seq<char>, V)>, i: int)
    requires
        distinct_keys(s),
        0 <= i < s.len(),
    ensures
        has_key(s, s[i].0),
        key_index(s, s[i].0) == i,
        lookup(s, s[i].0) == Some(s[i].1),
{
    assert(has_key(s, s[i].0));
    let j = key_index(s, s[i].0);
    assert(s[j].0 == s[i].0);
}

/// Storing under `k` keeps keys distinct, makes `k` map to `v` and leaves the
/// other keys as they were.
pub proof fn lemma_upsert<V>(s: Seq<(Seq<char>, V)>, k: Seq<char>, v: V, other: Seq<char>)
    requires
        distinct_keys(s),
    ensures
        distinct_keys(upsert(s, k, v)),
        lookup(upsert(s, k, v), k) == Some(v),
        other != k ==> lookup(upsert(s, k, v), other) == lookup(s, other),
{
    let t = upsert(s, k, v);
    if has_key(s, k) {
        let i = key_index(s, k);
        assert(t.len() == s.len());
        assert forall|a: int, b: int|
            0 <= a < t.len() && 0 <= b < t.len() && a != b implies #[trigger] t[a].0 != #[trigger] t[b].0 by {
            if a != i && b != i {
                assert(s[a].0 != s[b].0);
            } else if a == i {
                assert(s[b].0 != s[i].0);
            } else {
                assert(s[a].0 != s[i].0);
            }
        }
        assert(t[i].0 == k);
        lemma_key_index(t, i);
        if has_key(s, other) {
            let j = key_index(s, other);
            if other != k {
                assert(j != i);
                assert(t[j] == s[j]);
                lemma_key_index(t, j);
            }
        } else {
            if other != k && has_key(t, other) {
                let j = key_index(t, other);
                assert(s[j].0 == other);
            }
        }
    } else {
        let n = s.len() as int;
        assert forall|a: int, b: int|
            0 <= a < t.len() && 0 <= b < t.len() && a != b implies #[trigger] t[a].0 != #[trigger] t[b].0 by {
            if a != n && b != n {
                assert(s[a].0 != s[b].0);
            } else if a == n {
                assert(t[b].0 == s[b].0);
            } else {
                assert(t[a].0 == s[a].0);
            }
        }
        lemma_key_index(t, n);
        if has_key(s, other) {
            let j = key_index(s, other);
            assert(t[j] == s[j]);
            lemma_key_index(t, j);
        } else {
            if other != k && has_key(t, other) {
                let j = key_index(t, other);
                assert(j != n);
                assert(s[j].0 == other);
            }
        }
    }
}

/// Removing `k` keeps keys distinct, makes `k` absent and leaves the other
/// keys as they were.
pub proof fn lemma_without<V>(s: Seq<(Seq<char>, V)>, k: Seq<char>, other: Seq<char>)
    requires
        distinct_keys(s),
    ensures
        distinct_keys(without(s, k)),
        lookup(without(s, k), k) is None,
        other != k ==> lookup(without(s, k), other) == lookup(s, other),
{
    let t = without(s, k);
    if has_key(s, k) {
        let i = key_index(s, k);
        assert forall|a: int, b: int|
            0 <= a < t.len() && 0 <= b < t.len() && a != b implies #[trigger] t[a].0 != #[trigger] t[b].0 by {
            let sa = if a < i { a } else { a + 1 };
            let sb = if b < i { b } else { b + 1 };
            assert(t[a] == s[sa]);
            assert(t[b] == s[sb]);
            assert(s[sa].0 != s[sb].0);
        }
        if has_key(t, k) {
            let j = key_index(t, k);
            let sj = if j < i { j } else { j + 1 };
            assert(t[j] == s[sj]);
            assert(s[sj].0 == s[i].0);
        }
        if other != k {
            if has_key(s, other) {
                let j = key_index(s, other);
                assert(j != i);
                let tj = if j < i { j } else { j - 1 };
                assert(t[tj] == s[j]);
                lemma_key_index(t, tj);
            } else if has_key(t, other) {
                let j = key_index(t, other);
                let sj = if j < i { j } else { j + 1 };
                assert(t[j] == s[sj]);
            }
        }
    }
}

/// Every value of `s` satisfies `p`.
pub open spec fn all_values<V>(s: Seq<(Seq<char>, V)>, p: spec_fn(V) -> bool) -> bool {
    forall|i: int| 0 <= i < s.len() ==> p((#[trigger] s[i]).1)
}

/// Storing a value that satisfies `p` keeps every value satisfying `p`.
pub proof fn lemma_upsert_keeps<V>(s: Seq<(Seq<char>, V)>, k: Seq<char>, v: V, p: spec_fn(V) -> bool)
    requires
        all_values(s, p),
        p(v),
    ensures
        all_values(upsert(s, k, v), p),
{
    let t = upsert(s, k, v);
    assert forall|i: int| 0 <= i < t.len() implies p((#[trigger] t[i]).1) by {
        if i < s.len() && t[i] == s[i] {
            assert(p(s[i].1));
        }
    }
}

/// Removing an entry keeps every value satisfying `p`.
pub proof fn lemma_without_keeps<V>(s: Seq<(Seq<char>, V)>, k: Seq<char>, p: spec_fn(V) -> bool)
    requires
        all_values(s, p),
    ensures
        all_values(without(s, k), p),
{
    let t = without(s, k);
    if has_key(s, k) {
        let i = key_index(s, k);
        assert forall|j: int| 0 <= j < t.len() implies p((#[trigger] t[j]).1) by {
            let sj = if j < i { j } else { j + 1 };
            assert(t[j] == s[sj]);
            assert(p(s[sj].1));
        }
    }
}

/// A value found by its key satisfies what every value satisfies.
pub proof fn lemma_lookup_keeps<V>(s: Seq<(Seq<char>, V)>, k: Seq<char>, p: spec_fn(V) -> bool)
    requires
        all_values(s, p),
        lookup(s, k) is Some,
    ensures
        p(lookup(s, k)->Some_0),
{
    let i = key_index(s, k);
    assert(p(s[i].1));
}

/// Entries keyed by text, each value seen through `f`.
pub open spec fn keyed_view<V, W>(entries: Seq<(String, V)>, f: spec_fn(V) -> W) -> Seq<(Seq<char>, W)> {
    entries.map_values(|e: (String, V)| (e.0@, f(e.1)))
}

/// The identity, to see values as themselves.
pub open spec fn same<V>() -> spec_fn(V) -> V {
    |v: V| v
}

/// Replacing the value at position `i` (key kept) is storing it under its
/// key.
pub proof fn lemma_keyed_update<V, W>(entries: Seq<(String, V)>, i: int, v: V, f: spec_fn(V) -> W)
    requires
        distinct_keys(keyed_view(entries, f)),
        0 <= i < entries.len(),
    ensures
        keyed_view(entries.update(i, (entries[i].0, v)), f) == upsert(keyed_view(entries, f), entries[i].0@, f(v)),
{
    let kv = keyed_view(entries, f);
    lemma_key_index(kv, i);
    assert(keyed_view(entries.update(i, (entries[i].0, v)), f) =~= kv.update(i, (entries[i].0@, f(v))));
}

/// Where `key` stands in `entries`, comparing keys by their text.
pub(crate) fn find_key<V, W>(entries: &Vec<(String, V)>, key: &String, Ghost(f): Ghost<spec_fn(V) -> W>) -> (found: Option<usize>)
    requires
        distinct_keys(keyed_view(entries@, f)),
    ensures
        match found {
            Some(i) => {
                &&& i < entries@.len()
                &&& entries@[i as int].0@ == key@
                &&& has_key(keyed_view(entries@, f), key@)
                &&& key_index(keyed_view(entries@, f), key@) == i
                &&& lookup(keyed_view(entries@, f), key@) == Some(f(entries@[i as int].1))
            },
            None => !has_key(keyed_view(entries@, f), key@) && lookup(keyed_view(entries@, f), key@) is None,
        },
{
    let ghost kv = keyed_view(entries@, f);
    let mut i: usize = 0;
    while i < entries.len()
        invariant
            i <= entries@.len(),
            kv == keyed_view(entries@, f),
            distinct_keys(kv),
            forall|j: int| 0 <= j < i ==> entries@[j].0@ != key@,
        decreases entries@.len() - i,
    {
        if entries[i].0 == *key {
            proof {
                assert(kv[i as int].0 == key@);
                lemma_key_index(kv, i as int);
            }
            return Some(i);
        }
        i = i + 1;
    }
    proof {
        if has_key(kv, key@) {
            let j = key_index(kv, key@);
            assert(kv[j].0 == entries@[j].0@);
        }
    }
    None
}

/// Stores `value` under `key`: in place of the entry with that key, or
/// appended.
pub(crate) fn store<V, W>(entries: &mut Vec<(String, V)>, key: String, value: V, Ghost(f): Ghost<spec_fn(V) -> W>)
    requires
        distinct_keys(keyed_view(old(entries)@, f)),
    ensures
        keyed_view(final(entries)@, f) == upsert(keyed_view(old(entries)@, f), key@, f(value)),
        distinct_keys(keyed_view(final(entries)@, f)),
{
    let ghost before = keyed_view(entries@, f);
    let ghost k = key@;
    let ghost fv = f(value);
    proof {
        lemma_upsert(before, k, fv, k);
    }
    match find_key::<V, W>(entries, &key, Ghost(f)) {
        Some(i) => {
            entries.set(i, (key, value));
            assert(keyed_view(entries@, f) =~= before.update(i as int, (k, fv)));
        },
        None => {
            entries.push((key, value));
            assert(keyed_view(entries@, f) =~= before.push((k, fv)));
        },
    }
}

/// Takes the entry with key `key` out of `entries` and hands back its value.
pub(crate) fn take<V, W>(entries: &mut Vec<(String, V)>, key: &String, Ghost(f): Ghost<spec_fn(V) -> W>) -> (taken: Option<V>)
    requires
        distinct_keys(keyed_view(old(entries)@, f)),
    ensures
        keyed_view(final(entries)@, f) == without(keyed_view(old(entries)@, f), key@),
        distinct_keys(keyed_view(final(entries)@, f)),
        match taken {
            Some(v) => lookup(keyed_view(old(entries)@, f), key@) == Some(f(v)),
            None => lookup(keyed_view(old(entries)@, f), key@) is None,
        },
{
    let ghost before = keyed_view(entries@, f);
    proof {
        lemma_without(before, key@, key@);
    }
    match find_key::<V, W>(entries, key, Ghost(f)) {
        Some(i) => {
            let (_, v) = entries.remove(i);
            assert(keyed_view(entries@, f) =~= before.remove(i as int));
            Some(v)
        },
        None => None,
    }
}

} // verus!
