//! Finite maps represented by sequences of key/value pairs.
//!
//! Several structures of the renderer keep an association from keys that
//! are not machine integers (pipeline descriptions, geometry handles, batch
//! keys) to values. They store the pairs in a vector whose keys are pairwise
//! distinct; the functions here give such a sequence its meaning as a map and
//! prove the facts that the structures need about it.
use vstd::prelude::*;

verus! {

/// No key occurs twice in the sequence.
pub open spec fn unique_keys<K, V>(s: Seq<(K, V)>) -> bool {
    forall|i: int, j: int| 0 <= i < s.len() && 0 <= j < s.len() && i != j ==> s[i].0 != s[j].0
}

/// Some pair in the sequence has the key `k`.
pub open spec fn has_key<K, V>(s: Seq<(K, V)>, k: K) -> bool {
    exists|i: int| 0 <= i < s.len() && s[i].0 == k
}

/// The map that the sequence of pairs stands for; a later pair wins over an
/// earlier one with the same key.
pub open spec fn keyed_map<K, V>(s: Seq<(K, V)>) -> Map<K, V>
    decreases s.len(),
{
    if s.len() == 0 {
        Map::empty()
    } else {
        keyed_map(s.drop_last()).insert(s.last().0, s.last().1)
    }
}

/// The map's keys are exactly the keys that occur in the sequence.
pub proof fn lemma_keyed_map_dom<K, V>(s: Seq<(K, V)>, k: K)
    ensures
        keyed_map(s).contains_key(k) <==> has_key(s, k),
        keyed_map(s).dom().finite(),
    decreases s.len(),
{
    if s.len() > 0 {
        let t = s.drop_last();
        lemma_keyed_map_dom(t, k);
        if has_key(t, k) {
            let i = choose|i: int| 0 <= i < t.len() && t[i].0 == k;
            assert(s[i].0 == k);
        }
        if has_key(s, k) && s.last().0 != k {
            let i = choose|i: int| 0 <= i < s.len() && s[i].0 == k;
            assert(i != s.len() - 1);
            assert(t[i].0 == k);
        }
    }
}

/// The map has finitely many keys.
pub proof fn lemma_keyed_map_finite<K, V>(s: Seq<(K, V)>)
    ensures
        keyed_map(s).dom().finite(),
    decreases s.len(),
{
    if s.len() > 0 {
        lemma_keyed_map_finite(s.drop_last());
    }
}

/// In a sequence without repeated keys, the map sends each key to the value
/// paired with it.
pub proof fn lemma_keyed_map_value<K, V>(s: Seq<(K, V)>, i: int)
    requires
        unique_keys(s),
        0 <= i < s.len(),
    ensures
        keyed_map(s).contains_key(s[i].0),
        keyed_map(s)[s[i].0] == s[i].1,
    decreases s.len(),
{
    let t = s.drop_last();
    if i < s.len() - 1 {
        assert(t[i] == s[i]);
        lemma_keyed_map_value(t, i);
        assert(s.last().0 != s[i].0);
    }
}

/// A sequence without repeated keys stands for a map with as many keys as
/// the sequence has pairs.
pub proof fn lemma_keyed_map_len<K, V>(s: Seq<(K, V)>)
    requires
        unique_keys(s),
    ensures
        keyed_map(s).dom().finite(),
        keyed_map(s).len() == s.len(),
    decreases s.len(),
{
    if s.len() > 0 {
        let t = s.drop_last();
        assert(unique_keys(t)) by {
            assert forall|i: int, j: int|
                0 <= i < t.len() && 0 <= j < t.len() && i != j implies t[i].0 != t[j].0 by {
                assert(t[i] == s[i] && t[j] == s[j]);
            }
        }
        lemma_keyed_map_len(t);
        lemma_keyed_map_dom(t, s.last().0);
        if has_key(t, s.last().0) {
            let i = choose|i: int| 0 <= i < t.len() && t[i].0 == s.last().0;
            assert(s[i].0 == s[s.len() - 1].0);
        }
    }
}

/// Appending a pair whose key is new keeps the keys distinct and inserts the
/// pair into the map.
pub proof fn lemma_keyed_map_push<K, V>(s: Seq<(K, V)>, k: K, v: V)
    requires
        unique_keys(s),
        !has_key(s, k),
    ensures
        unique_keys(s.push((k, v))),
        keyed_map(s.push((k, v))) == keyed_map(s).insert(k, v),
{
    let t = s.push((k, v));
    assert(t.drop_last() =~= s);
    assert forall|i: int, j: int|
        0 <= i < t.len() && 0 <= j < t.len() && i != j implies t[i].0 != t[j].0 by {
        if i < s.len() && j < s.len() {
            assert(t[i] == s[i] && t[j] == s[j]);
        } else if i < s.len() {
            assert(t[i] == s[i]);
        } else {
            assert(t[j] == s[j]);
        }
    }
}

/// Replacing the value of a pair keeps the keys distinct and updates the map
/// at that key.
pub proof fn lemma_keyed_map_update<K, V>(s: Seq<(K, V)>, i: int, v: V)
    requires
        unique_keys(s),
        0 <= i < s.len(),
    ensures
        unique_keys(s.update(i, (s[i].0, v))),
        keyed_map(s.update(i, (s[i].0, v))) == keyed_map(s).insert(s[i].0, v),
    decreases s.len(),
{
    let k = s[i].0;
    let u = s.update(i, (k, v));
    assert forall|a: int, b: int|
        0 <= a < u.len() && 0 <= b < u.len() && a != b implies u[a].0 != u[b].0 by {
        assert(u[a].0 == s[a].0 && u[b].0 == s[b].0);
    }
    let t = s.drop_last();
    if i == s.len() - 1 {
        assert(u.drop_last() =~= t);
        assert(keyed_map(u) == keyed_map(t).insert(k, v));
        assert(keyed_map(s) == keyed_map(t).insert(k, s.last().1));
        assert(keyed_map(u) =~= keyed_map(s).insert(k, v));
    } else {
        assert(unique_keys(t)) by {
            assert forall|a: int, b: int|
                0 <= a < t.len() && 0 <= b < t.len() && a != b implies t[a].0 != t[b].0 by {
                assert(t[a] == s[a] && t[b] == s[b]);
            }
        }
        assert(t[i] == s[i]);
        lemma_keyed_map_update(t, i, v);
        assert(u.drop_last() =~= t.update(i, (k, v)));
        assert(u.last() == s.last());
        assert(s.last().0 != k);
        assert(keyed_map(u) =~= keyed_map(s).insert(k, v));
    }
}

} // verus!
