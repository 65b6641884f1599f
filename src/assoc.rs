//! Association lists: a sequence of key/value pairs read as a map in which a
//! later pair shadows an earlier one with the same key.
use vstd::prelude::*;

verus! {

/// The map that a sequence of pairs denotes when inserted in order.
pub open spec fn assoc_map<K, V>(s: Seq<(K, V)>) -> Map<K, V>
    decreases s.len(),
{
    if s.len() == 0 {
        Map::empty()
    } else {
        assoc_map(s.drop_last()).insert(s.last().0, s.last().1)
    }
}

/// No key occurs twice.
pub open spec fn distinct_keys<K, V>(s: Seq<(K, V)>) -> bool {
    forall|i: int, j: int| 0 <= i < s.len() && 0 <= j < s.len() && i != j ==> s[i].0 != s[j].0
}

/// Appending a pair inserts it.
pub proof fn lemma_assoc_push<K, V>(s: Seq<(K, V)>, k: K, v: V)
    ensures
        assoc_map(s.push((k, v))) == assoc_map(s).insert(k, v),
{
    assert(s.push((k, v)).drop_last() =~= s);
}

/// A key that no pair holds is absent.
pub proof fn lemma_assoc_absent<K, V>(s: Seq<(K, V)>, k: K)
    requires
        forall|i: int| 0 <= i < s.len() ==> s[i].0 != k,
    ensures
        !assoc_map(s).contains_key(k),
    decreases s.len(),
{
    if s.len() > 0 {
        lemma_assoc_absent(s.drop_last(), k);
    }
}

/// With distinct keys, each pair is what the map holds for its key.
pub proof fn lemma_assoc_index<K, V>(s: Seq<(K, V)>, i: int)
    requires
        distinct_keys(s),
        0 <= i < s.len(),
    ensures
        assoc_map(s).contains_key(s[i].0),
        assoc_map(s)[s[i].0] == s[i].1,
    decreases s.len(),
{
    if i < s.len() - 1 {
        let t = s.drop_last();
        assert(t[i] == s[i]);
        lemma_assoc_index(t, i);
    }
}

/// With distinct keys, overwriting the value of a pair inserts the new value.
pub proof fn lemma_assoc_update<K, V>(s: Seq<(K, V)>, i: int, v: V)
    requires
        distinct_keys(s),
        0 <= i < s.len(),
    ensures
        assoc_map(s.update(i, (s[i].0, v))) == assoc_map(s).insert(s[i].0, v),
        distinct_keys(s.update(i, (s[i].0, v))),
    decreases s.len(),
{
    let k = s[i].0;
    let u = s.update(i, (k, v));
    let t = s.drop_last();
    if i == s.len() - 1 {
        assert(u.drop_last() =~= t);
        assert(assoc_map(u) =~= assoc_map(s).insert(k, v));
    } else {
        assert(u.drop_last() =~= t.update(i, (k, v)));
        assert(t[i] == s[i]);
        lemma_assoc_update(t, i, v);
        assert(s.last().0 != k);
        assert(assoc_map(u) =~= assoc_map(s).insert(k, v));
    }
}

} // verus!
