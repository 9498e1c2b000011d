//! Association lists: sequences of key/value pairs read as finite maps, the
//! later pair of a key winning.
use vstd::prelude::*;

verus! {

/// The map that a list of pairs stands for; a later pair for a key replaces an earlier one.
pub open spec fn assoc_map<K, V>(s: Seq<(K, V)>) -> Map<K, V>
    decreases s.len(),
{
    if s.len() == 0 {
        Map::empty()
    } else {
        assoc_map(s.drop_last()).insert(s.last().0, s.last().1)
    }
}

/// No key occurs twice.
pub open spec fn keys_unique<K, V>(s: Seq<(K, V)>) -> bool {
    forall|i: int, j: int| 0 <= i < j < s.len() ==> s[i].0 != s[j].0
}

/// Some pair has key `k`.
pub open spec fn has_key<K, V>(s: Seq<(K, V)>, k: K) -> bool {
    exists|i: int| 0 <= i < s.len() && s[i].0 == k
}

/// The domain of `assoc_map(s)` is the set of keys in `s`, and each key maps to the
/// value of its last pair.
pub proof fn lemma_assoc_map_dom<K, V>(s: Seq<(K, V)>, k: K)
    ensures
        assoc_map(s).contains_key(k) <==> has_key(s, k),
        assoc_map(s).dom().finite(),
    decreases s.len(),
{
    if s.len() > 0 {
        lemma_assoc_map_dom(s.drop_last(), k);
        if has_key(s.drop_last(), k) {
            let i = choose|i: int| 0 <= i < s.drop_last().len() && s.drop_last()[i].0 == k;
            assert(s[i].0 == k);
        }
        if has_key(s, k) && k != s.last().0 {
            let i = choose|i: int| 0 <= i < s.len() && s[i].0 == k;
            assert(s.drop_last()[i].0 == k);
        }
    }
}

/// With unique keys, the pair at `i` gives the value of its key.
pub proof fn lemma_assoc_map_index<K, V>(s: Seq<(K, V)>, i: int)
    requires
        keys_unique(s),
        0 <= i < s.len(),
    ensures
        assoc_map(s).contains_key(s[i].0),
        assoc_map(s)[s[i].0] == s[i].1,
    decreases s.len(),
{
    if i < s.len() - 1 {
        assert(s.drop_last()[i] == s[i]);
        lemma_assoc_map_index(s.drop_last(), i);
    }
}

/// Two lists with unique keys and the same pairs, position for position once rearranged,
/// are shown equal as maps by checking every key.
pub proof fn lemma_assoc_map_ext<K, V>(s: Seq<(K, V)>, m: Map<K, V>)
    requires
        keys_unique(s),
        forall|k: K| has_key(s, k) <==> m.contains_key(k),
        forall|i: int| 0 <= i < s.len() ==> m[#[trigger] s[i].0] == s[i].1,
    ensures
        assoc_map(s) == m,
{
    assert forall|k: K| assoc_map(s).contains_key(k) <==> m.contains_key(k) by {
        lemma_assoc_map_dom(s, k);
    }
    assert forall|k: K| #[trigger] assoc_map(s).contains_key(k) implies assoc_map(s)[k] == m[k] by {
        lemma_assoc_map_dom(s, k);
        let i = choose|i: int| 0 <= i < s.len() && s[i].0 == k;
        lemma_assoc_map_index(s, i);
    }
    assert(assoc_map(s) =~= m);
}

/// Replacing the value at position `i` updates the map at that key.
pub proof fn lemma_assoc_map_update<K, V>(s: Seq<(K, V)>, i: int, v: V)
    requires
        keys_unique(s),
        0 <= i < s.len(),
    ensures
        keys_unique(s.update(i, (s[i].0, v))),
        assoc_map(s.update(i, (s[i].0, v))) == assoc_map(s).insert(s[i].0, v),
{
    let t = s.update(i, (s[i].0, v));
    let m = assoc_map(s).insert(s[i].0, v);
    assert forall|k: K| has_key(t, k) <==> m.contains_key(k) by {
        lemma_assoc_map_dom(s, k);
        if has_key(s, k) {
            let j = choose|j: int| 0 <= j < s.len() && s[j].0 == k;
            assert(t[j].0 == k);
        }
        if has_key(t, k) {
            let j = choose|j: int| 0 <= j < t.len() && t[j].0 == k;
            assert(s[j].0 == k);
        }
    }
    assert forall|j: int| 0 <= j < t.len() implies m[#[trigger] t[j].0] == t[j].1 by {
        if j != i {
            lemma_assoc_map_index(s, j);
        }
    }
    lemma_assoc_map_ext(t, m);
}

/// Inserting a pair whose key is new, at any position, adds it to the map.
pub proof fn lemma_assoc_map_insert_at<K, V>(s: Seq<(K, V)>, i: int, k: K, v: V)
    requires
        keys_unique(s),
        0 <= i <= s.len(),
        !has_key(s, k),
    ensures
        keys_unique(s.insert(i, (k, v))),
        assoc_map(s.insert(i, (k, v))) == assoc_map(s).insert(k, v),
{
    let t = s.insert(i, (k, v));
    let m = assoc_map(s).insert(k, v);
    assert forall|a: int, b: int| 0 <= a < b < t.len() implies t[a].0 != t[b].0 by {
        if a < i && b < i {
        } else if a < i && b == i {
            assert(s[a].0 != k);
        } else if a < i {
            assert(t[b] == s[b - 1]);
        } else if a == i {
            assert(t[b] == s[b - 1]);
            assert(s[b - 1].0 != k);
        } else {
            assert(t[a] == s[a - 1]);
            assert(t[b] == s[b - 1]);
        }
    }
    assert forall|q: K| has_key(t, q) <==> m.contains_key(q) by {
        lemma_assoc_map_dom(s, q);
        if has_key(s, q) {
            let j = choose|j: int| 0 <= j < s.len() && s[j].0 == q;
            if j < i {
                assert(t[j].0 == q);
            } else {
                assert(t[j + 1].0 == q);
            }
        }
        if q == k {
            assert(t[i].0 == q);
        }
        if has_key(t, q) && q != k {
            let j = choose|j: int| 0 <= j < t.len() && t[j].0 == q;
            if j < i {
                assert(s[j].0 == q);
            } else {
                assert(s[j - 1].0 == q);
            }
        }
    }
    assert forall|j: int| 0 <= j < t.len() implies m[#[trigger] t[j].0] == t[j].1 by {
        if j < i {
            lemma_assoc_map_index(s, j);
            assert(s[j].0 != k);
        } else if j > i {
            lemma_assoc_map_index(s, j - 1);
            assert(s[j - 1].0 != k);
        }
    }
    lemma_assoc_map_ext(t, m);
}

/// Appending a pair whose key is new keeps keys unique.
pub proof fn lemma_assoc_push_unique<K, V>(s: Seq<(K, V)>, k: K, v: V)
    requires
        keys_unique(s),
        !has_key(s, k),
    ensures
        keys_unique(s.push((k, v))),
        assoc_map(s.push((k, v))) == assoc_map(s).insert(k, v),
{
    assert(s.push((k, v)).drop_last() =~= s);
    assert forall|a: int, b: int| 0 <= a < b < s.push((k, v)).len() implies s.push(
        (k, v),
    )[a].0 != s.push((k, v))[b].0 by {
        if b == s.len() {
            assert(s[a].0 != k);
        }
    }
}

/// With unique keys, the map has one key per pair.
pub proof fn lemma_assoc_map_len<K, V>(s: Seq<(K, V)>)
    requires
        keys_unique(s),
    ensures
        assoc_map(s).dom().finite(),
        assoc_map(s).dom().len() == s.len(),
    decreases s.len(),
{
    if s.len() > 0 {
        let t = s.drop_last();
        assert(keys_unique(t));
        lemma_assoc_map_len(t);
        lemma_assoc_map_dom(t, s.last().0);
        lemma_assoc_map_dom(s, s.last().0);
        if has_key(t, s.last().0) {
            let i = choose|i: int| 0 <= i < t.len() && t[i].0 == s.last().0;
            assert(s[i].0 == s[s.len() - 1].0);
        }
        assert(assoc_map(s).dom() =~= assoc_map(t).dom().insert(s.last().0));
    } else {
        assert(assoc_map(s).dom() =~= Set::empty());
    }
}

/// `HashMap::insert` on a list of pairs: the pair of key `k` gets value `v` where it
/// stands; without one, `(k, v)` is added at the end.
pub open spec fn pairs_insert<K, V>(s: Seq<(K, V)>, k: K, v: V) -> Seq<(K, V)>
    decreases s.len(),
{
    if s.len() == 0 {
        seq![(k, v)]
    } else if s[0].0 == k {
        seq![(k, v)] + s.drop_first()
    } else {
        seq![s[0]] + pairs_insert(s.drop_first(), k, v)
    }
}

/// The distinct keys of `s`, each where it first occurs, with the value of its last pair.
pub open spec fn dedup_last<K, V>(s: Seq<(K, V)>) -> Seq<(K, V)>
    decreases s.len(),
{
    if s.len() == 0 {
        s
    } else {
        pairs_insert(dedup_last(s.drop_last()), s.last().0, s.last().1)
    }
}

/// With unique keys, `pairs_insert` updates the pair of `k` in place, or appends.
pub proof fn lemma_pairs_insert_shape<K, V>(s: Seq<(K, V)>, k: K, v: V)
    requires
        keys_unique(s),
    ensures
        forall|i: int| 0 <= i < s.len() && s[i].0 == k ==> pairs_insert(s, k, v) == s.update(i, (k, v)),
        !has_key(s, k) ==> pairs_insert(s, k, v) == s.push((k, v)),
    decreases s.len(),
{
    if s.len() > 0 {
        let t = s.drop_first();
        assert(keys_unique(t));
        lemma_pairs_insert_shape(t, k, v);
        assert forall|i: int| 0 <= i < s.len() && s[i].0 == k implies pairs_insert(s, k, v) == s.update(i, (k, v)) by {
            if i == 0 {
                assert(pairs_insert(s, k, v) =~= s.update(i, (k, v)));
            } else {
                assert(t[i - 1].0 == k);
                assert(s[0].0 != k);
                assert(pairs_insert(t, k, v) == t.update(i - 1, (k, v)));
                assert(pairs_insert(s, k, v) =~= s.update(i, (k, v)));
            }
        }
        if !has_key(s, k) {
            assert(s[0].0 != k);
            assert forall|i: int| 0 <= i < t.len() implies t[i].0 != k by {
                assert(s[i + 1].0 != k);
            }
            assert(pairs_insert(s, k, v) =~= s.push((k, v)));
        }
    } else {
        assert(pairs_insert(s, k, v) =~= s.push((k, v)));
    }
}

/// With unique keys, `pairs_insert` keeps keys unique and inserts into the map.
pub proof fn lemma_pairs_insert<K, V>(s: Seq<(K, V)>, k: K, v: V)
    requires
        keys_unique(s),
    ensures
        keys_unique(pairs_insert(s, k, v)),
        assoc_map(pairs_insert(s, k, v)) == assoc_map(s).insert(k, v),
{
    lemma_pairs_insert_shape(s, k, v);
    if has_key(s, k) {
        let i = choose|i: int| 0 <= i < s.len() && s[i].0 == k;
        lemma_assoc_map_update(s, i, v);
    } else {
        lemma_assoc_push_unique(s, k, v);
    }
}

/// `dedup_last(s)` has unique keys and stands for the same map as `s`.
pub proof fn lemma_dedup_last<K, V>(s: Seq<(K, V)>)
    ensures
        keys_unique(dedup_last(s)),
        assoc_map(dedup_last(s)) == assoc_map(s),
    decreases s.len(),
{
    if s.len() > 0 {
        lemma_dedup_last(s.drop_last());
        lemma_pairs_insert(dedup_last(s.drop_last()), s.last().0, s.last().1);
    }
}

} // verus!
