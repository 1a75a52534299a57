//! Association lists keyed by `u32`, the in-memory shape of every table
//! the engine owns (leaderboard entries, cached artifacts, cached
//! difficulty attributes). Lookup takes the last binding for a key; all
//! tables keep their keys unique, so the last binding is the only one.

use vstd::prelude::*;

verus! {

/// The value bound to `key`, if any.
pub open spec fn assoc_lookup<V>(s: Seq<(u32, V)>, key: u32) -> Option<V>
    decreases s.len(),
{
    if s.len() == 0 {
        None
    } else if s.last().0 == key {
        Some(s.last().1)
    } else {
        assoc_lookup(s.drop_last(), key)
    }
}

/// Whether some binding for `key` exists.
pub open spec fn assoc_has_key<V>(s: Seq<(u32, V)>, key: u32) -> bool {
    exists|i: int| 0 <= i < s.len() && s[i].0 == key
}

/// No two bindings share a key.
pub open spec fn assoc_unique_keys<V>(s: Seq<(u32, V)>) -> bool {
    forall|i: int, j: int| 0 <= i < j < s.len() ==> s[i].0 != s[j].0
}

/// A binding is found exactly when one exists.
pub proof fn lemma_assoc_lookup_some<V>(s: Seq<(u32, V)>, key: u32)
    ensures
        assoc_lookup(s, key) is Some <==> assoc_has_key(s, key),
    decreases s.len(),
{
    if s.len() > 0 {
        lemma_assoc_lookup_some(s.drop_last(), key);
        if s.last().0 != key && assoc_has_key(s, key) {
            let i = choose|i: int| 0 <= i < s.len() && s[i].0 == key;
            assert(s.drop_last()[i] == s[i]);
        }
    }
}

/// With unique keys, the binding found at `key` is the binding at every
/// index that carries `key`.
pub proof fn lemma_assoc_lookup_at<V>(s: Seq<(u32, V)>, key: u32, i: int)
    requires
        assoc_unique_keys(s),
        0 <= i < s.len(),
        s[i].0 == key,
    ensures
        assoc_lookup(s, key) == Some(s[i].1),
    decreases s.len(),
{
    if s.last().0 == key {
        assert(i == s.len() - 1);
    } else {
        assert(s.drop_last()[i] == s[i]);
        lemma_assoc_lookup_at(s.drop_last(), key, i);
    }
}

/// Looking up any key other than the one updated is unaffected by the
/// update.
pub proof fn lemma_assoc_lookup_update<V>(s: Seq<(u32, V)>, i: int, v: V, key: u32)
    requires
        0 <= i < s.len(),
        s[i].0 != key,
    ensures
        assoc_lookup(s.update(i, (s[i].0, v)), key) == assoc_lookup(s, key),
    decreases s.len(),
{
    let t = s.update(i, (s[i].0, v));
    assert(t.len() == s.len());
    if i == s.len() - 1 {
        assert(t.drop_last() =~= s.drop_last());
    } else {
        assert(t.last() == s.last());
        assert(t.drop_last() =~= s.drop_last().update(i, (s[i].0, v)));
        lemma_assoc_lookup_update(s.drop_last(), i, v, key);
    }
}

} // verus!
