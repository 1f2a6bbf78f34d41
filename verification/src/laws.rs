//! The laws a well-formed keyboard layout obeys.
//!
//! Each proof function here states one property of the derived indices or of
//! the resolver, for every layout that [`KeyboardLayout::new`] can build,
//! not just for the shipped Dvorak table.

use vstd::prelude::*;

use crate::PSEUDO_OFFSET;
use crate::assoc::lemma_assoc_map_distinct_len;
use crate::assoc::lemma_assoc_map_hit;
use crate::assoc::lemma_assoc_map_values;
use crate::layout::KeyboardLayout;
use crate::text::has_key_prefix;
use crate::text::key_prefix;
use crate::text::lemma_upper_concat;
use crate::text::lemma_upper_idempotent;
use crate::text::lemma_upper_key_prefix;
use crate::text::upper_seq;

verus! {

/// Bijection: the forward index maps exactly the keys the layout table
/// covers, the reverse index undoes it on every one of them, and both
/// indices are exactly as large as the table's distinct-key count.
pub proof fn lemma_bijection(kl: &KeyboardLayout)
    requires
        kl.wf(),
    ensures
        forall|p: u16| #[trigger]
            kl.layout_map().dom().contains(p) ==> kl.forward_map().dom().contains(p)
                && kl.reverse_map().dom().contains(kl.forward_map()[p])
                && kl.reverse_map()[kl.forward_map()[p]] == p,
        kl.forward_map().dom() == kl.layout_map().dom(),
        kl.forward_map().dom().len() == kl.layout_map().dom().len(),
        kl.reverse_map().dom().len() == kl.layout_map().dom().len(),
{
    kl.lemma_forward_map_is_shift();
    kl.lemma_reverse_map_is_unshift();
    assert forall|p: u16| #[trigger]
        kl.layout_map().dom().contains(p) implies kl.forward_map().dom().contains(p)
        && kl.reverse_map().dom().contains(kl.forward_map()[p]) && kl.reverse_map()[kl.forward_map(
    )[p]] == p by {
        let q = kl.forward_map()[p];
        assert(q == (p + PSEUDO_OFFSET) as u16);
        assert((q - PSEUDO_OFFSET) as u16 == p);
    }
}

/// Disjointness: physical key codes and pseudo key codes never intersect.
/// Every key the forward index covers lies below the offset, every pseudo
/// code it produces lies at or above it, and the reverse index only ever
/// maps the latter range back into the former.
pub proof fn lemma_disjointness(kl: &KeyboardLayout)
    requires
        kl.wf(),
    ensures
        forall|p: u16| #[trigger]
            kl.forward_map().dom().contains(p) ==> p < PSEUDO_OFFSET && kl.forward_map()[p]
                >= PSEUDO_OFFSET,
        forall|q: u16| #[trigger]
            kl.reverse_map().dom().contains(q) ==> q >= PSEUDO_OFFSET && kl.reverse_map()[q]
                < PSEUDO_OFFSET,
{
    kl.lemma_forward_map_is_shift();
    kl.lemma_reverse_map_is_unshift();
}

/// Round trip: a label the layout table assigns to a physical key resolves
/// back to that key, whether written as stored or already upper-cased.
/// Labels must be distinct under case folding: were two table entries to
/// fold to the same name, the later entry would capture it.
pub proof fn lemma_round_trip(kl: &KeyboardLayout, p: u16)
    requires
        kl.wf(),
        kl.layout_map().dom().contains(p),
        forall|i: int, j: int|
            0 <= i < j < kl.table_seq().len() ==> upper_seq((#[trigger] kl.table_seq()[i]).1)
                != upper_seq((#[trigger] kl.table_seq()[j]).1),
    ensures
        kl.resolve_model(kl.layout_map()[p]) == Some(p),
        kl.resolve_model(upper_seq(kl.layout_map()[p])) == Some(p),
{
    let label = kl.layout_map()[p];
    lemma_assoc_map_values(kl.table_seq());
    let i = choose|i: int| 0 <= i < kl.table_seq().len() && kl.table_seq()[i] == (p, label);
    let m = kl.name_index@.map_values(|pr: (Vec<char>, u16)| (pr.0@, pr.1));
    assert(m[i] == (upper_seq(label), (p + PSEUDO_OFFSET) as u16));
    assert forall|j: int| i < j < m.len() implies (#[trigger] m[j].0) != m[i].0 by {
        assert(m[j].0 == upper_seq(kl.table_seq()[j].1));
    }
    lemma_assoc_map_hit(m, i);
    assert(kl.name_map().dom().contains(upper_seq(label)));
    assert(kl.name_map()[upper_seq(label)] == (p + PSEUDO_OFFSET) as u16);
    kl.lemma_reverse_map_is_unshift();
    let q = (p + PSEUDO_OFFSET) as u16;
    assert((q - PSEUDO_OFFSET) as u16 == p);
    assert(kl.pseudo_back(q) == Some(p));
    lemma_upper_idempotent(label);
}

/// Prefix tolerance: a name and its `KEY_`-prefixed form resolve alike, for
/// any name that does not itself carry the prefix, as long as no table label
/// folds to the prefixed forms themselves.
pub proof fn lemma_prefix_tolerance(kl: &KeyboardLayout, name: Seq<char>)
    requires
        kl.wf(),
        !has_key_prefix(upper_seq(name)),
        !kl.name_map().dom().contains(key_prefix() + upper_seq(name)),
        !kl.name_map().dom().contains(key_prefix() + (key_prefix() + upper_seq(name))),
    ensures
        kl.resolve_model(key_prefix() + name) == kl.resolve_model(name),
{
    let l = upper_seq(name);
    lemma_upper_concat(key_prefix(), name);
    lemma_upper_key_prefix();
    assert(upper_seq(key_prefix() + name) == key_prefix() + l);
    let pl = key_prefix() + l;
    assert(has_key_prefix(pl)) by {
        assert(pl.take(4) =~= key_prefix());
    }
    assert(pl.skip(4) =~= l);
}

/// Name index cardinality: a seed table with pairwise distinct keys and
/// pairwise distinct case-folded labels yields a name index with exactly one
/// entry per covered physical key.
pub proof fn lemma_name_index_cardinality(kl: &KeyboardLayout)
    requires
        kl.wf(),
        forall|i: int, j: int|
            0 <= i < j < kl.table_seq().len() ==> (#[trigger] kl.table_seq()[i]).0 != (
            #[trigger] kl.table_seq()[j]).0,
        forall|i: int, j: int|
            0 <= i < j < kl.table_seq().len() ==> upper_seq((#[trigger] kl.table_seq()[i]).1)
                != upper_seq((#[trigger] kl.table_seq()[j]).1),
    ensures
        kl.name_map().dom().finite(),
        kl.name_map().dom().len() == kl.layout_map().dom().len(),
{
    let m = kl.name_index@.map_values(|pr: (Vec<char>, u16)| (pr.0@, pr.1));
    assert forall|i: int, j: int| 0 <= i < j < m.len() implies (#[trigger] m[i]).0 != (
    #[trigger] m[j]).0 by {
        assert(m[i].0 == upper_seq(kl.table_seq()[i].1));
        assert(m[j].0 == upper_seq(kl.table_seq()[j].1));
    }
    lemma_assoc_map_distinct_len(m);
    lemma_assoc_map_distinct_len(kl.table_seq());
}

/// Omission tolerance: a physical key the layout table does not cover has no
/// entry in any of the three indices, and no name ever resolves to it.
pub proof fn lemma_omission(kl: &KeyboardLayout, p: u16)
    requires
        kl.wf(),
        !kl.layout_map().dom().contains(p),
    ensures
        !kl.forward_map().dom().contains(p),
        forall|q: u16| #[trigger]
            kl.reverse_map().dom().contains(q) ==> kl.reverse_map()[q] != p,
        forall|q: u16| kl.pseudo_back(q) != Some(p),
        forall|name: Seq<char>| kl.resolve_model(name) != Some(p),
{
    kl.lemma_forward_map_is_shift();
    kl.lemma_reverse_map_is_unshift();
    assert forall|q: u16| #[trigger]
        kl.reverse_map().dom().contains(q) implies kl.reverse_map()[q] != p by {
        assert(kl.layout_map().dom().contains((q - PSEUDO_OFFSET) as u16));
    }
}

} // verus!
