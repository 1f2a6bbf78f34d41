//! Association tables with map semantics.
//!
//! The indices of a keyboard layout are stored as flat vectors of pairs.
//! Their meaning is the finite map built by inserting the pairs in order, so
//! a later pair with the same key overwrites an earlier one ("last
//! definition wins", the ordinary policy when a map is built from a sequence
//! of pairs).  Lookups scan from the back, which realizes exactly that map.

use vstd::prelude::*;

verus! {

/// The map that a sequence of pairs denotes: each pair is inserted in order,
/// so of two pairs with the same key the later one wins.
pub open spec fn assoc_map<K, V>(s: Seq<(K, V)>) -> Map<K, V>
    decreases s.len(),
{
    if s.len() == 0 {
        Map::<K, V>::empty()
    } else {
        assoc_map(s.drop_last()).insert(s.last().0, s.last().1)
    }
}

/// The domain of the denoted map is finite and holds exactly the keys that
/// occur somewhere in the sequence.
pub proof fn lemma_assoc_map_dom<K, V>(s: Seq<(K, V)>)
    ensures
        assoc_map(s).dom().finite(),
        forall|k: K|
            assoc_map(s).dom().contains(k) <==> exists|i: int|
                0 <= i < s.len() && #[trigger] s[i].0 == k,
    decreases s.len(),
{
    if s.len() == 0 {
    } else {
        lemma_assoc_map_dom(s.drop_last());
        assert forall|k: K| assoc_map(s).dom().contains(k) implies exists|i: int|
            0 <= i < s.len() && #[trigger] s[i].0 == k by {
            if k == s.last().0 {
                assert(s[s.len() - 1].0 == k);
            } else {
                let i = choose|i: int| 0 <= i < s.drop_last().len() && #[trigger] s.drop_last()[i].0
                    == k;
                assert(s[i].0 == k);
            }
        }
        assert forall|k: K|
            (exists|i: int| 0 <= i < s.len() && #[trigger] s[i].0 == k) implies assoc_map(
            s,
        ).dom().contains(k) by {
            let i = choose|i: int| 0 <= i < s.len() && #[trigger] s[i].0 == k;
            if i < s.len() - 1 {
                assert(s.drop_last()[i].0 == k);
            }
        }
    }
}

/// A pair whose key occurs nowhere later in the sequence gives the denoted
/// map's value at that key.
pub proof fn lemma_assoc_map_hit<K, V>(s: Seq<(K, V)>, i: int)
    requires
        0 <= i < s.len(),
        forall|j: int| i < j < s.len() ==> (#[trigger] s[j].0) != s[i].0,
    ensures
        assoc_map(s).dom().contains(s[i].0),
        assoc_map(s)[s[i].0] == s[i].1,
    decreases s.len(),
{
    if i == s.len() - 1 {
    } else {
        assert(forall|j: int|
            i < j < s.drop_last().len() ==> (#[trigger] s.drop_last()[j].0) != s.drop_last()[i].0);
        lemma_assoc_map_hit(s.drop_last(), i);
        assert(s[s.len() - 1].0 != s[i].0);
    }
}

/// A key that occurs nowhere in the sequence is absent from the denoted map.
pub proof fn lemma_assoc_map_miss<K, V>(s: Seq<(K, V)>, k: K)
    requires
        forall|i: int| 0 <= i < s.len() ==> (#[trigger] s[i].0) != k,
    ensures
        !assoc_map(s).dom().contains(k),
{
    lemma_assoc_map_dom(s);
}

/// Every value of the denoted map stands beside its key in some pair of the
/// sequence.
pub proof fn lemma_assoc_map_values<K, V>(s: Seq<(K, V)>)
    ensures
        forall|k: K| #[trigger]
            assoc_map(s).dom().contains(k) ==> exists|i: int|
                0 <= i < s.len() && s[i] == (k, assoc_map(s)[k]),
    decreases s.len(),
{
    if s.len() == 0 {
    } else {
        lemma_assoc_map_values(s.drop_last());
        assert forall|k: K| #[trigger] assoc_map(s).dom().contains(k) implies exists|i: int|
            0 <= i < s.len() && s[i] == (k, assoc_map(s)[k]) by {
            if k == s.last().0 {
                assert(s[s.len() - 1] == (k, assoc_map(s)[k]));
            } else {
                let i = choose|i: int|
                    0 <= i < s.drop_last().len() && s.drop_last()[i] == (
                    k,
                    assoc_map(s.drop_last())[k],
                    );
                assert(s[i] == (k, assoc_map(s)[k]));
            }
        }
    }
}

/// A sequence of pairs with pairwise distinct keys denotes a map with one
/// entry per pair.
pub proof fn lemma_assoc_map_distinct_len<K, V>(s: Seq<(K, V)>)
    requires
        forall|i: int, j: int|
            0 <= i < j < s.len() ==> (#[trigger] s[i]).0 != (#[trigger] s[j]).0,
    ensures
        assoc_map(s).dom().finite(),
        assoc_map(s).dom().len() == s.len(),
    decreases s.len(),
{
    lemma_assoc_map_dom(s);
    if s.len() > 0 {
        lemma_assoc_map_distinct_len(s.drop_last());
        lemma_assoc_map_dom(s.drop_last());
        assert(!assoc_map(s.drop_last()).dom().contains(s.last().0)) by {
            if assoc_map(s.drop_last()).dom().contains(s.last().0) {
                let i = choose|i: int|
                    0 <= i < s.drop_last().len() && (#[trigger] s.drop_last()[i]).0 == s.last().0;
                assert((s[i]).0 == (s[s.len() - 1]).0);
            }
        }
    }
}

/// Looks a key up in an association table of key codes, by a backward scan,
/// so that the result is exactly the denoted map's.
pub fn assoc_get_code(entries: &Vec<(u16, u16)>, key: u16) -> (r: Option<u16>)
    ensures
        r == (if assoc_map(entries@).dom().contains(key) {
            Some(assoc_map(entries@)[key])
        } else {
            None::<u16>
        }),
{
    let mut i = entries.len();
    while i > 0
        invariant
            i <= entries@.len(),
            forall|j: int| i <= j < entries@.len() ==> (#[trigger] entries@[j].0) != key,
        decreases i,
    {
        i = i - 1;
        if entries[i].0 == key {
            proof {
                lemma_assoc_map_hit(entries@, i as int);
            }
            return Some(entries[i].1);
        }
    }
    proof {
        lemma_assoc_map_miss(entries@, key);
    }
    None
}

} // verus!
