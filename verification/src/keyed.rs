//! Sequences of keyed entries: lookup by key, removal, and the facts about
//! them that the cache and the query parameters rely on.

use vstd::prelude::*;

verus! {

/// Some entry of `s` has key `k`.
pub open spec fn has_key<V>(s: Seq<(Seq<char>, V)>, k: Seq<char>) -> bool {
    exists|i: int| 0 <= i < s.len() && #[trigger] s[i].0 == k
}

/// The position of the entry with key `k` (meaningful when there is one).
pub open spec fn key_index<V>(s: Seq<(Seq<char>, V)>, k: Seq<char>) -> int {
    choose|i: int| 0 <= i < s.len() && #[trigger] s[i].0 == k
}

/// No two entries of `s` have the same key.
pub open spec fn distinct_keys<V>(s: Seq<(Seq<char>, V)>) -> bool {
    forall|i: int, j: int|
        0 <= i < s.len() && 0 <= j < s.len() && i != j ==> #[trigger] s[i].0 != #[trigger] s[j].0
}

/// The value stored under `k`, if any.
pub open spec fn lookup<V>(s: Seq<(Seq<char>, V)>, k: Seq<char>) -> Option<V> {
    if has_key(s, k) {
        Some(s[key_index(s, k)].1)
    } else {
        None
    }
}

/// `s` without the entry of key `k`.
pub open spec fn without_key<V>(s: Seq<(Seq<char>, V)>, k: Seq<char>) -> Seq<(Seq<char>, V)> {
    if has_key(s, k) {
        s.remove(key_index(s, k))
    } else {
        s
    }
}

/// With distinct keys, the entry at position `i` is the one found by its
/// own key.
pub proof fn lemma_key_index<V>(s: Seq<(Seq<char>, V)>, i: int)
    requires
        distinct_keys(s),
        0 <= i < s.len(),
    ensures
        has_key(s, s[i].0),
        key_index(s, s[i].0) == i,
{
    let k = s[i].0;
    assert(0 <= i < s.len() && s[i].0 == k);
    let j = key_index(s, k);
    assert(s[j].0 == k);
}

/// Removing the entry at position `i` keeps keys distinct, drops exactly its
/// key, and leaves the lookup of every other key as it was.
pub proof fn lemma_remove_keys<V>(s: Seq<(Seq<char>, V)>, i: int)
    requires
        distinct_keys(s),
        0 <= i < s.len(),
    ensures
        distinct_keys(s.remove(i)),
        forall|k: Seq<char>| has_key(s.remove(i), k) <==> (has_key(s, k) && k != s[i].0),
        forall|k: Seq<char>|
            k != s[i].0 ==> #[trigger] lookup(s.remove(i), k) == lookup(s, k),
{
    let r = s.remove(i);
    assert forall|a: int, b: int|
        0 <= a < r.len() && 0 <= b < r.len() && a != b implies #[trigger] r[a].0
        != #[trigger] r[b].0 by {
        let a2 = if a < i { a } else { a + 1 };
        let b2 = if b < i { b } else { b + 1 };
        assert(r[a] == s[a2]);
        assert(r[b] == s[b2]);
    }
    assert forall|k: Seq<char>| has_key(r, k) <==> (has_key(s, k) && k != s[i].0) by {
        if has_key(r, k) {
            let a = key_index(r, k);
            let a2 = if a < i { a } else { a + 1 };
            assert(r[a] == s[a2]);
            assert(s[a2].0 == k);
            assert(a2 != i);
        }
        if has_key(s, k) && k != s[i].0 {
            let a2 = key_index(s, k);
            assert(a2 != i);
            let a = if a2 < i { a2 } else { a2 - 1 };
            assert(r[a] == s[a2]);
            assert(r[a].0 == k);
        }
    }
    assert forall|k: Seq<char>| k != s[i].0 implies #[trigger] lookup(r, k) == lookup(s, k) by {
        if has_key(r, k) {
            let a = key_index(r, k);
            let a2 = if a < i { a } else { a + 1 };
            assert(r[a] == s[a2]);
            lemma_key_index(s, a2);
        }
    }
}

/// Appending an entry with a new key keeps keys distinct, makes the key
/// found with its value, and leaves the lookup of every other key as it
/// was.
pub proof fn lemma_push_keys<V>(s: Seq<(Seq<char>, V)>, k: Seq<char>, v: V)
    requires
        distinct_keys(s),
        !has_key(s, k),
    ensures
        distinct_keys(s.push((k, v))),
        lookup(s.push((k, v)), k) == Some(v),
        forall|k2: Seq<char>| has_key(s.push((k, v)), k2) <==> (has_key(s, k2) || k2 == k),
        forall|k2: Seq<char>| k2 != k ==> #[trigger] lookup(s.push((k, v)), k2) == lookup(s, k2),
{
    let r = s.push((k, v));
    assert forall|a: int, b: int|
        0 <= a < r.len() && 0 <= b < r.len() && a != b implies #[trigger] r[a].0
        != #[trigger] r[b].0 by {
        if a < s.len() && b < s.len() {
            assert(r[a] == s[a] && r[b] == s[b]);
        } else if a < s.len() {
            assert(r[a] == s[a]);
        } else {
            assert(r[b] == s[b]);
        }
    }
    lemma_key_index(r, s.len() as int);
    assert forall|k2: Seq<char>| has_key(r, k2) <==> (has_key(s, k2) || k2 == k) by {
        if has_key(r, k2) && k2 != k {
            let a = key_index(r, k2);
            assert(r[a] == s[a]);
        }
        if has_key(s, k2) {
            let a = key_index(s, k2);
            assert(r[a] == s[a]);
        }
    }
    assert forall|k2: Seq<char>| k2 != k implies #[trigger] lookup(r, k2) == lookup(s, k2) by {
        if has_key(s, k2) {
            let a = key_index(s, k2);
            assert(r[a] == s[a]);
            lemma_key_index(r, a);
        }
    }
}

} // verus!
