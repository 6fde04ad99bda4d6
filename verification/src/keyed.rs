use vstd::prelude::*;

use crate::assoc::{as_map, holds_key, keys_distinct, lemma_as_map_index};

verus! {

/// A value that is known in its world by a name.
pub trait Keyed {
    spec fn key(&self) -> Seq<char>;
}

/// No two entries of `s` share a name.
pub open spec fn keys_unique<V: Keyed>(s: Seq<V>) -> bool {
    forall|i: int, j: int|
        0 <= i < s.len() && 0 <= j < s.len() && i != j ==> #[trigger] s[i].key() != #[trigger] s[j].key()
}

/// Some entry of `s` has the name `k`.
pub open spec fn has_key<V: Keyed>(s: Seq<V>, k: Seq<char>) -> bool {
    exists|i: int| 0 <= i < s.len() && #[trigger] s[i].key() == k
}

/// The entries of `s`, found by their names.
pub open spec fn keyed<V: Keyed>(s: Seq<V>) -> Map<Seq<char>, V> {
    Map::new(
        |k: Seq<char>| has_key(s, k),
        |k: Seq<char>| s[choose|i: int| 0 <= i < s.len() && #[trigger] s[i].key() == k],
    )
}

/// The entry at `i` is the one found under its name.
pub proof fn lemma_keyed_index<V: Keyed>(s: Seq<V>, i: int)
    requires
        keys_unique(s),
        0 <= i < s.len(),
    ensures
        keyed(s).contains_key(s[i].key()),
        keyed(s)[s[i].key()] == s[i],
{
    let k = s[i].key();
    assert(has_key(s, k));
    let j = choose|j: int| 0 <= j < s.len() && #[trigger] s[j].key() == k;
    assert(s[j].key() == s[i].key());
}

/// A name that no entry has is not found.
pub proof fn lemma_keyed_absent<V: Keyed>(s: Seq<V>, k: Seq<char>)
    requires
        forall|i: int| 0 <= i < s.len() ==> #[trigger] s[i].key() != k,
    ensures
        !keyed(s).contains_key(k),
{
}

/// Replacing an entry by one of the same name replaces it under that name.
pub proof fn lemma_keyed_update<V: Keyed>(s: Seq<V>, i: int, v: V)
    requires
        keys_unique(s),
        0 <= i < s.len(),
        v.key() == s[i].key(),
    ensures
        keys_unique(s.update(i, v)),
        keyed(s.update(i, v)) == keyed(s).insert(v.key(), v),
{
    let t = s.update(i, v);
    assert forall|a: int, b: int|
        0 <= a < t.len() && 0 <= b < t.len() && a != b implies #[trigger] t[a].key() != #[trigger] t[b].key() by {
        assert(t[a].key() == s[a].key());
        assert(t[b].key() == s[b].key());
    }
    assert forall|k: Seq<char>| #[trigger] keyed(t).contains_key(k) <==> keyed(s).insert(v.key(), v).contains_key(k) by {
        if has_key(t, k) {
            let j = choose|j: int| 0 <= j < t.len() && #[trigger] t[j].key() == k;
            assert(s[j].key() == k);
        }
        if has_key(s, k) {
            let j = choose|j: int| 0 <= j < s.len() && #[trigger] s[j].key() == k;
            assert(t[j].key() == k);
        }
    }
    assert forall|k: Seq<char>| #[trigger] keyed(t).contains_key(k) implies keyed(t)[k] == keyed(s).insert(v.key(), v)[k] by {
        let j = choose|j: int| 0 <= j < t.len() && #[trigger] t[j].key() == k;
        assert(s[j].key() == k);
        lemma_keyed_index(t, j);
        if j != i {
            lemma_keyed_index(s, j);
        }
    }
    assert(keyed(t) =~= keyed(s).insert(v.key(), v));
}

/// Appending an entry under a new name adds it under that name.
pub proof fn lemma_keyed_push<V: Keyed>(s: Seq<V>, v: V)
    requires
        keys_unique(s),
        !keyed(s).contains_key(v.key()),
    ensures
        keys_unique(s.push(v)),
        keyed(s.push(v)) == keyed(s).insert(v.key(), v),
{
    let t = s.push(v);
    assert forall|i: int| 0 <= i < s.len() implies #[trigger] s[i].key() != v.key() by {
        if s[i].key() == v.key() {
            assert(has_key(s, v.key()));
        }
    }
    assert forall|a: int, b: int|
        0 <= a < t.len() && 0 <= b < t.len() && a != b implies #[trigger] t[a].key() != #[trigger] t[b].key() by {
        if a < s.len() {
            assert(t[a] == s[a]);
        }
        if b < s.len() {
            assert(t[b] == s[b]);
        }
    }
    assert forall|k: Seq<char>| #[trigger] keyed(t).contains_key(k) <==> keyed(s).insert(v.key(), v).contains_key(k) by {
        if has_key(t, k) {
            let j = choose|j: int| 0 <= j < t.len() && #[trigger] t[j].key() == k;
            if j < s.len() {
                assert(s[j].key() == k);
            }
        }
        if has_key(s, k) {
            let j = choose|j: int| 0 <= j < s.len() && #[trigger] s[j].key() == k;
            assert(t[j].key() == k);
        }
        if k == v.key() {
            assert(t[s.len() as int].key() == k);
        }
    }
    assert forall|k: Seq<char>| #[trigger] keyed(t).contains_key(k) implies keyed(t)[k] == keyed(s).insert(v.key(), v)[k] by {
        let j = choose|j: int| 0 <= j < t.len() && #[trigger] t[j].key() == k;
        lemma_keyed_index(t, j);
        if j < s.len() {
            assert(t[j] == s[j]);
            lemma_keyed_index(s, j);
        }
    }
    assert(keyed(t) =~= keyed(s).insert(v.key(), v));
}

/// The entries of `s` found by their names, where a later entry replaces an
/// earlier one of the same name.
pub open spec fn collect<V: Keyed>(s: Seq<V>) -> Map<Seq<char>, V>
    decreases s.len(),
{
    if s.len() == 0 {
        Map::empty()
    } else {
        collect(s.drop_last()).insert(s.last().key(), s.last())
    }
}

/// Changing every entry without changing its name changes every entry found
/// by name in the same way.
pub proof fn lemma_keyed_map<V: Keyed>(s: Seq<V>, t: Seq<V>, f: spec_fn(V) -> V)
    requires
        keys_unique(s),
        s.len() == t.len(),
        forall|i: int| 0 <= i < s.len() ==> #[trigger] t[i] == f(s[i]),
        forall|v: V| #[trigger] f(v).key() == v.key(),
    ensures
        keys_unique(t),
        keyed(t) == keyed(s).map_values(f),
{
    assert forall|a: int, b: int|
        0 <= a < t.len() && 0 <= b < t.len() && a != b implies #[trigger] t[a].key() != #[trigger] t[b].key() by {
        assert(t[a].key() == f(s[a]).key());
        assert(t[b].key() == f(s[b]).key());
    }
    assert forall|k: Seq<char>| #[trigger] keyed(t).contains_key(k) <==> keyed(s).contains_key(k) by {
        if has_key(t, k) {
            let j = choose|j: int| 0 <= j < t.len() && #[trigger] t[j].key() == k;
            assert(f(s[j]).key() == s[j].key());
            assert(s[j].key() == k);
        }
        if has_key(s, k) {
            let j = choose|j: int| 0 <= j < s.len() && #[trigger] s[j].key() == k;
            assert(f(s[j]).key() == s[j].key());
            assert(t[j].key() == k);
        }
    }
    assert forall|k: Seq<char>| #[trigger] keyed(t).contains_key(k) implies keyed(t)[k] == keyed(s).map_values(f)[k] by {
        let j = choose|j: int| 0 <= j < t.len() && #[trigger] t[j].key() == k;
        lemma_keyed_index(t, j);
        assert(f(s[j]).key() == s[j].key());
        lemma_keyed_index(s, j);
    }
    assert(keyed(t) =~= keyed(s).map_values(f));
}

/// The entries of `s` written as pairs of a name and `f` of the entry: the
/// names are distinct, and read by name they give `f` of the entries found by
/// name.
pub proof fn lemma_keyed_pairs<V: Keyed, W>(s: Seq<V>, f: spec_fn(V) -> W)
    requires
        keys_unique(s),
    ensures
        keys_distinct(s.map_values(|v: V| (v.key(), f(v)))),
        as_map(s.map_values(|v: V| (v.key(), f(v)))) == keyed(s).map_values(f),
{
    let e = s.map_values(|v: V| (v.key(), f(v)));
    assert forall|a: int, b: int| 0 <= a < e.len() && 0 <= b < e.len() && a != b implies #[trigger] e[a].0
        != #[trigger] e[b].0 by {
        assert(e[a].0 == s[a].key());
        assert(e[b].0 == s[b].key());
    }
    assert forall|k: Seq<char>| #[trigger] as_map(e).contains_key(k) <==> keyed(s).map_values(f).contains_key(k) by {
        if holds_key(e, k) {
            let j = choose|j: int| 0 <= j < e.len() && #[trigger] e[j].0 == k;
            assert(s[j].key() == k);
        }
        if has_key(s, k) {
            let j = choose|j: int| 0 <= j < s.len() && #[trigger] s[j].key() == k;
            assert(e[j].0 == k);
        }
    }
    assert forall|k: Seq<char>| #[trigger] as_map(e).contains_key(k) implies as_map(e)[k] == keyed(s).map_values(
        f,
    )[k] by {
        let j = choose|j: int| 0 <= j < e.len() && #[trigger] e[j].0 == k;
        lemma_as_map_index(e, j);
        lemma_keyed_index(s, j);
    }
    assert(as_map(e) =~= keyed(s).map_values(f));
}

} // verus!
