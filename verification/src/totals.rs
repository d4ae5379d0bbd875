//! Sums over sequences and over finite maps keyed by identity.

use vstd::prelude::*;

verus! {

/// The sum of `f` over the elements of `s`.
pub open spec fn seq_total<V>(s: Seq<V>, f: spec_fn(V) -> int) -> int
    decreases s.len(),
{
    if s.len() == 0 {
        0
    } else {
        seq_total(s.drop_last(), f) + f(s.last())
    }
}

/// The sum of `f` over the values of the finite map `m`.
pub open spec fn map_total<V>(m: Map<u128, V>, f: spec_fn(V) -> int) -> int
    decreases m.dom().len(),
    when m.dom().finite()
{
    if m.dom().len() == 0 {
        0
    } else {
        let k = m.dom().choose();
        f(m[k]) + map_total(m.remove(k), f)
    }
}

/// Every value of `m` stands under its own key.
pub open spec fn keyed<V>(m: Map<u128, V>, key: spec_fn(V) -> u128) -> bool {
    forall|k: u128| #[trigger] m.contains_key(k) ==> key(m[k]) == k
}

/// The values that a walk through a map meets: of each pair of a key and a
/// value, the value.
pub open spec fn walked<V>(pairs: Seq<(&u128, &V)>) -> Seq<V> {
    Seq::new(pairs.len(), |i: int| *pairs[i].1)
}

/// `s` holds each value of `m` exactly once, `key` giving the key under which
/// a value stands in `m`.
pub open spec fn lists<V>(s: Seq<V>, m: Map<u128, V>, key: spec_fn(V) -> u128) -> bool {
    &&& forall|i: int| 0 <= i < s.len() ==> m.contains_key(#[trigger] key(s[i])) && m[key(s[i])] == s[i]
    &&& forall|i: int, j: int| 0 <= i < j < s.len() ==> key(s[i]) != key(s[j])
    &&& forall|k: u128| #[trigger] m.contains_key(k) ==> exists|i: int| 0 <= i < s.len() && key(s[i]) == k
}

/// The map that holds each element of `s` under its key; of two elements with
/// one key, the later one.
pub open spec fn collected<V>(s: Seq<V>, key: spec_fn(V) -> u128) -> Map<u128, V>
    decreases s.len(),
{
    if s.len() == 0 {
        Map::empty()
    } else {
        collected(s.drop_last(), key).insert(key(s.last()), s.last())
    }
}

/// A sum of zeros is 0.
pub proof fn lemma_map_total_zero<V>(m: Map<u128, V>, f: spec_fn(V) -> int)
    requires
        m.dom().finite(),
        forall|k: u128| #[trigger] m.contains_key(k) ==> f(m[k]) == 0,
    ensures
        map_total(m, f) == 0,
    decreases m.dom().len(),
{
    if m.dom().len() != 0 {
        lemma_map_total_zero(m.remove(m.dom().choose()), f);
    }
}

/// Any one value can be taken out of the sum.
pub proof fn lemma_map_total_remove<V>(m: Map<u128, V>, f: spec_fn(V) -> int, k: u128)
    requires
        m.dom().finite(),
        m.contains_key(k),
    ensures
        map_total(m, f) == f(m[k]) + map_total(m.remove(k), f),
    decreases m.dom().len(),
{
    let c = m.dom().choose();
    if c != k {
        lemma_map_total_remove(m.remove(c), f, k);
        lemma_map_total_remove(m.remove(k), f, c);
        assert(m.remove(c).remove(k) =~= m.remove(k).remove(c));
    }
}

/// The sum over a sequence that holds each value of a map once is the sum
/// over the map.
pub proof fn lemma_listing_total<V>(
    s: Seq<V>,
    m: Map<u128, V>,
    key: spec_fn(V) -> u128,
    f: spec_fn(V) -> int,
)
    requires
        m.dom().finite(),
        lists(s, m, key),
    ensures
        seq_total(s, f) == map_total(m, f),
    decreases s.len(),
{
    if s.len() == 0 {
        assert(m.dom() =~= Set::<u128>::empty());
    } else {
        let k = key(s.last());
        let rest = s.drop_last();
        assert(lists(rest, m.remove(k), key)) by {
            assert forall|q: u128| #[trigger] m.remove(k).contains_key(q) implies exists|i: int|
                0 <= i < rest.len() && key(rest[i]) == q by {
                assert(m.contains_key(q));
                let i = choose|i: int| 0 <= i < s.len() && key(s[i]) == q;
                assert(key(rest[i]) == q);
            }
        }
        lemma_listing_total(rest, m.remove(k), key, f);
        lemma_map_total_remove(m, f, k);
    }
}

/// A walk that meets each entry of a map once holds each of its values once.
pub proof fn lemma_walk_lists<V>(pairs: Seq<(&u128, &V)>, m: Map<u128, V>, key: spec_fn(V) -> u128)
    requires
        keyed(m, key),
        pairs.no_duplicates(),
        forall|i: int|
            #![trigger pairs[i]]
            0 <= i < pairs.len() ==> m.contains_key(*pairs[i].0) && m[*pairs[i].0] == *pairs[i].1,
        forall|k: u128| #[trigger] m.contains_key(k) ==> pairs.contains((&k, &m[k])),
    ensures
        lists(walked(pairs), m, key),
{
    let s = walked(pairs);
    assert forall|i: int| 0 <= i < s.len() implies m.contains_key(#[trigger] key(s[i])) && m[key(
        s[i],
    )] == s[i] by {
        assert(m.contains_key(*pairs[i].0));
    }
    assert forall|i: int, j: int| 0 <= i < j < s.len() implies key(s[i]) != key(s[j]) by {
        assert(m.contains_key(*pairs[i].0));
        assert(m.contains_key(*pairs[j].0));
        assert(pairs[i] != pairs[j]);
    }
    assert forall|k: u128| #[trigger] m.contains_key(k) implies exists|i: int|
        0 <= i < s.len() && key(s[i]) == k by {
        let i = choose|i: int| 0 <= i < pairs.len() && pairs[i] == (&k, &m[k]);
        assert(key(s[i]) == k);
    }
}

/// Collecting a sequence that holds each value of a map once gives the map
/// back.
pub proof fn lemma_listing_collected<V>(s: Seq<V>, m: Map<u128, V>, key: spec_fn(V) -> u128)
    requires
        lists(s, m, key),
    ensures
        collected(s, key) == m,
    decreases s.len(),
{
    if s.len() == 0 {
        assert(m =~= Map::<u128, V>::empty());
    } else {
        let k = key(s.last());
        let rest = s.drop_last();
        assert(lists(rest, m.remove(k), key)) by {
            assert forall|q: u128| #[trigger] m.remove(k).contains_key(q) implies exists|i: int|
                0 <= i < rest.len() && key(rest[i]) == q by {
                assert(m.contains_key(q));
                let i = choose|i: int| 0 <= i < s.len() && key(s[i]) == q;
                assert(key(rest[i]) == q);
            }
        }
        lemma_listing_collected(rest, m.remove(k), key);
        assert(m.remove(k).insert(k, s.last()) =~= m);
    }
}

/// What is collected is finite, and every element stands under its key.
pub proof fn lemma_collected_keyed<V>(s: Seq<V>, key: spec_fn(V) -> u128)
    ensures
        collected(s, key).dom().finite(),
        keyed(collected(s, key), key),
    decreases s.len(),
{
    if s.len() != 0 {
        lemma_collected_keyed(s.drop_last(), key);
    }
}

} // verus!
