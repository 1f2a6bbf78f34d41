//! The keyboard layout: one seed table and its three derived indices.
//!
//! A [`KeyboardLayout`] is built once from an ordered table of
//! (physical key code, layout label) pairs and is read-only afterwards.  It
//! derives, in a single pass:
//!
//! - a forward index, physical key code to pseudo key code,
//! - a reverse index, the exact inverse of the forward index,
//! - a name index, case-normalized label to pseudo key code.
//!
//! A pseudo key code is the physical code shifted by [`PSEUDO_OFFSET`], a
//! range no real device can produce, so the remap engine can treat "the key
//! that means X under this layout" as a first-class key value and have it
//! reversed back to a real key at emission time.

use vstd::prelude::*;

use crate::PSEUDO_OFFSET;
use crate::assoc::assoc_map;
use crate::assoc::assoc_get_code;
use crate::assoc::lemma_assoc_map_hit;
use crate::assoc::lemma_assoc_map_miss;
use crate::assoc::lemma_assoc_map_dom;
use crate::text::upper_seq;
use crate::text::key_prefix;
use crate::text::has_key_prefix;
use crate::text::to_upper_chars;
use crate::text::chars_eq;
use crate::text::has_key_prefix_exec;
use crate::text::with_key_prefix;
use crate::text::without_key_prefix;

verus! {

/// One keyboard layout: the seed table and its three derived indices.
pub struct KeyboardLayout {
    /// The seed table: ordered (physical key code, layout label) pairs.
    pub table: Vec<(u16, String)>,
    /// Physical key code to pseudo key code.
    pub forward_index: Vec<(u16, u16)>,
    /// Pseudo key code to physical key code.
    pub reverse_index: Vec<(u16, u16)>,
    /// Canonical (upper-cased) label to pseudo key code.
    pub name_index: Vec<(Vec<char>, u16)>,
}

impl KeyboardLayout {
    /// The seed table as a sequence of (key code, label) pairs.
    pub open spec fn table_seq(&self) -> Seq<(u16, Seq<char>)> {
        self.table@.map_values(|p: (u16, String)| (p.0, p.1@))
    }

    /// The layout table as a map: the label each covered physical key means.
    pub open spec fn layout_map(&self) -> Map<u16, Seq<char>> {
        assoc_map(self.table_seq())
    }

    /// The forward index as a map.
    pub open spec fn forward_map(&self) -> Map<u16, u16> {
        assoc_map(self.forward_index@)
    }

    /// The reverse index as a map.
    pub open spec fn reverse_map(&self) -> Map<u16, u16> {
        assoc_map(self.reverse_index@)
    }

    /// The name index as a map.
    pub open spec fn name_map(&self) -> Map<Seq<char>, u16> {
        assoc_map(self.name_index@.map_values(|p: (Vec<char>, u16)| (p.0@, p.1)))
    }

    /// Well-formedness: the three indices are exactly what one build pass
    /// derives from the seed table, and every pseudo code fits a key code.
    pub open spec fn wf(&self) -> bool {
        &&& self.forward_index@.len() == self.table_seq().len()
        &&& self.reverse_index@.len() == self.table_seq().len()
        &&& self.name_index@.len() == self.table_seq().len()
        &&& forall|i: int|
            0 <= i < self.table_seq().len() ==> {
                let k = (#[trigger] self.table_seq()[i]).0;
                &&& k + PSEUDO_OFFSET <= u16::MAX
                &&& self.forward_index@[i] == (k, (k + PSEUDO_OFFSET) as u16)
                &&& self.reverse_index@[i] == ((k + PSEUDO_OFFSET) as u16, k)
                &&& self.name_index@[i].0@ == upper_seq(self.table_seq()[i].1)
                &&& self.name_index@[i].1 == (k + PSEUDO_OFFSET) as u16
            }
    }

    /// What resolution of a pseudo key code back to a physical one yields.
    pub open spec fn pseudo_back(&self, pseudo: u16) -> Option<u16> {
        if self.reverse_map().dom().contains(pseudo) {
            Some(self.reverse_map()[pseudo])
        } else {
            None
        }
    }

    /// What resolving a user-written key name yields: the name is folded to
    /// its canonical form and looked up in the name index, first as it
    /// stands, then with the `KEY_` prefix prepended, then with the prefix
    /// stripped if it carries one; a hit is mapped back to its physical key
    /// through the reverse index.
    pub open spec fn resolve_model(&self, name: Seq<char>) -> Option<u16> {
        let n = upper_seq(name);
        if self.name_map().dom().contains(n) {
            self.pseudo_back(self.name_map()[n])
        } else if self.name_map().dom().contains(key_prefix() + n) {
            self.pseudo_back(self.name_map()[key_prefix() + n])
        } else if has_key_prefix(n) && self.name_map().dom().contains(n.skip(4)) {
            self.pseudo_back(self.name_map()[n.skip(4)])
        } else {
            None
        }
    }

    /// Builds a layout from its seed table.
    ///
    /// Construction is total: a duplicated physical key is resolved by "last
    /// definition wins", the ordinary policy when a map is built from a
    /// sequence of pairs.  A key whose meaning equals its physical meaning
    /// may simply be omitted from the table.
    pub fn new(table: Vec<(u16, String)>) -> (r: KeyboardLayout)
        requires
            forall|i: int|
                0 <= i < table@.len() ==> (#[trigger] table@[i]).0 + PSEUDO_OFFSET <= u16::MAX,
        ensures
            r.wf(),
            r.table == table,
    {
        let mut forward_index: Vec<(u16, u16)> = Vec::new();
        let mut reverse_index: Vec<(u16, u16)> = Vec::new();
        let mut name_index: Vec<(Vec<char>, u16)> = Vec::new();
        let mut i: usize = 0;
        while i < table.len()
            invariant
                i <= table@.len(),
                forall|j: int|
                    0 <= j < table@.len() ==> (#[trigger] table@[j]).0 + PSEUDO_OFFSET <= u16::MAX,
                forward_index@.len() == i,
                reverse_index@.len() == i,
                name_index@.len() == i,
                forall|j: int|
                    0 <= j < i ==> {
                        let k = (#[trigger] table@[j]).0;
                        &&& forward_index@[j] == (k, (k + PSEUDO_OFFSET) as u16)
                        &&& reverse_index@[j] == ((k + PSEUDO_OFFSET) as u16, k)
                        &&& name_index@[j].0@ == upper_seq(table@[j].1@)
                        &&& name_index@[j].1 == (k + PSEUDO_OFFSET) as u16
                    },
            decreases table@.len() - i,
        {
            let k = table[i].0;
            let pseudo = k + PSEUDO_OFFSET;
            forward_index.push((k, pseudo));
            reverse_index.push((pseudo, k));
            name_index.push((to_upper_chars(table[i].1.as_str()), pseudo));
            i = i + 1;
        }
        let r = KeyboardLayout { table, forward_index, reverse_index, name_index };
        proof {
            assert forall|j: int| 0 <= j < r.table_seq().len() implies {
                let k = (#[trigger] r.table_seq()[j]).0;
                &&& k + PSEUDO_OFFSET <= u16::MAX
                &&& r.forward_index@[j] == (k, (k + PSEUDO_OFFSET) as u16)
                &&& r.reverse_index@[j] == ((k + PSEUDO_OFFSET) as u16, k)
                &&& r.name_index@[j].0@ == upper_seq(r.table_seq()[j].1)
                &&& r.name_index@[j].1 == (k + PSEUDO_OFFSET) as u16
            } by {
                assert(r.table_seq()[j] == (r.table@[j].0, r.table@[j].1@));
            }
        }
        r
    }

    /// Tags a physical key with its pseudo identity under this layout:
    /// the forward index's answer, `None` for a key the table omits.
    pub fn forward(&self, physical: u16) -> (r: Option<u16>)
        requires
            self.wf(),
        ensures
            r == (if self.layout_map().dom().contains(physical) {
                Some((physical + PSEUDO_OFFSET) as u16)
            } else {
                None::<u16>
            }),
    {
        let r = assoc_get_code(&self.forward_index, physical);
        proof {
            self.lemma_forward_map_is_shift();
        }
        r
    }

    /// Translates a pseudo key back to the physical key it stands for:
    /// the reverse index's answer, `None` for a code no table entry produced.
    pub fn reverse(&self, pseudo: u16) -> (r: Option<u16>)
        requires
            self.wf(),
        ensures
            r == self.pseudo_back(pseudo),
            r == (if pseudo >= PSEUDO_OFFSET && self.layout_map().dom().contains(
                (pseudo - PSEUDO_OFFSET) as u16,
            ) {
                Some((pseudo - PSEUDO_OFFSET) as u16)
            } else {
                None::<u16>
            }),
    {
        let r = assoc_get_code(&self.reverse_index, pseudo);
        proof {
            self.lemma_reverse_map_is_unshift();
        }
        r
    }

    /// Looks a canonical name up in the name index: the name map's answer.
    fn name_lookup(&self, name: &Vec<char>) -> (r: Option<u16>)
        ensures
            r == (if self.name_map().dom().contains(name@) {
                Some(self.name_map()[name@])
            } else {
                None::<u16>
            }),
    {
        let ghost m = self.name_index@.map_values(|p: (Vec<char>, u16)| (p.0@, p.1));
        let mut i = self.name_index.len();
        while i > 0
            invariant
                m == self.name_index@.map_values(|p: (Vec<char>, u16)| (p.0@, p.1)),
                i <= self.name_index@.len(),
                forall|j: int| i <= j < m.len() ==> (#[trigger] m[j].0) != name@,
            decreases i,
        {
            i = i - 1;
            if chars_eq(&self.name_index[i].0, name) {
                proof {
                    lemma_assoc_map_hit(m, i as int);
                }
                return Some(self.name_index[i].1);
            }
        }
        proof {
            lemma_assoc_map_miss(m, name@);
        }
        None
    }

    /// Resolves a user-written key name to the physical key it designates
    /// under this layout.
    ///
    /// The name is folded to its canonical upper-case form and looked up in
    /// the name index as it stands; failing that, with the `KEY_` prefix
    /// prepended; failing that, with the prefix stripped if it carries one,
    /// so an author may write either the bare label or its `KEY_`-prefixed
    /// form.  A hit is translated back to the physical key through the
    /// reverse index.  `None` is an absence, not an error: the caller
    /// decides what an unresolved name means.
    pub fn apply_keyboard_layout(&self, key_name: &str) -> (r: Option<u16>)
        requires
            self.wf(),
        ensures
            r == self.resolve_model(key_name@),
    {
        let n = to_upper_chars(key_name);
        if let Some(pseudo) = self.name_lookup(&n) {
            return self.reverse(pseudo);
        }
        let prefixed = with_key_prefix(&n);
        if let Some(pseudo) = self.name_lookup(&prefixed) {
            return self.reverse(pseudo);
        }
        if has_key_prefix_exec(&n) {
            let stripped = without_key_prefix(&n);
            if let Some(pseudo) = self.name_lookup(&stripped) {
                return self.reverse(pseudo);
            }
        }
        None
    }

    /// Under well-formedness the forward index is exactly the layout table's
    /// domain shifted by the pseudo offset.
    pub proof fn lemma_forward_map_is_shift(&self)
        requires
            self.wf(),
        ensures
            self.forward_map().dom() =~= self.layout_map().dom(),
            forall|p: u16| #[trigger]
                self.layout_map().dom().contains(p) ==> p + PSEUDO_OFFSET <= u16::MAX
                    && self.forward_map()[p] == (p + PSEUDO_OFFSET) as u16,
    {
        lemma_assoc_shift(self.table_seq(), self.forward_index@);
    }

    /// Under well-formedness the reverse index is the exact inverse of the
    /// forward index: its domain is the shifted layout domain, and it
    /// undoes the shift.
    pub proof fn lemma_reverse_map_is_unshift(&self)
        requires
            self.wf(),
        ensures
            forall|q: u16| #[trigger]
                self.reverse_map().dom().contains(q) <==> (q >= PSEUDO_OFFSET
                    && self.layout_map().dom().contains((q - PSEUDO_OFFSET) as u16)),
            forall|q: u16| #[trigger]
                self.reverse_map().dom().contains(q) ==> self.reverse_map()[q] == (q
                    - PSEUDO_OFFSET) as u16,
            self.reverse_map().dom().finite(),
            self.reverse_map().dom().len() == self.layout_map().dom().len(),
    {
        lemma_assoc_unshift(self.table_seq(), self.reverse_index@);
    }
}

/// The map denoted by pairs (k, k + offset) has the same domain as the map
/// denoted by the source pairs, and shifts each key.
proof fn lemma_assoc_shift(s: Seq<(u16, Seq<char>)>, t: Seq<(u16, u16)>)
    requires
        t.len() == s.len(),
        forall|i: int|
            0 <= i < s.len() ==> (#[trigger] s[i]).0 + PSEUDO_OFFSET <= u16::MAX && t[i] == (
            s[i].0,
            (s[i].0 + PSEUDO_OFFSET) as u16,
            ),
    ensures
        assoc_map(t).dom() =~= assoc_map(s).dom(),
        forall|p: u16| #[trigger]
            assoc_map(s).dom().contains(p) ==> p + PSEUDO_OFFSET <= u16::MAX && assoc_map(t)[p] == (
            p + PSEUDO_OFFSET) as u16,
    decreases s.len(),
{
    lemma_assoc_map_dom(s);
    lemma_assoc_map_dom(t);
    if s.len() > 0 {
        assert(forall|i: int|
            0 <= i < s.drop_last().len() ==> (#[trigger] s.drop_last()[i]) == s[i]
                && t.drop_last()[i] == t[i]);
        lemma_assoc_shift(s.drop_last(), t.drop_last());
        assert forall|k: u16| assoc_map(t).dom().contains(k) implies assoc_map(s).dom().contains(
            k,
        ) by {
            let i = choose|i: int| 0 <= i < t.len() && (#[trigger] t[i]).0 == k;
            assert(s[i].0 == k);
        }
        assert forall|k: u16| assoc_map(s).dom().contains(k) implies assoc_map(t).dom().contains(
            k,
        ) by {
            let i = choose|i: int| 0 <= i < s.len() && (#[trigger] s[i]).0 == k;
            assert(t[i].0 == k);
        }
        assert forall|p: u16| #[trigger]
            assoc_map(s).dom().contains(p) implies p + PSEUDO_OFFSET <= u16::MAX && assoc_map(t)[p]
            == (p + PSEUDO_OFFSET) as u16 by {
            let i = choose|i: int| 0 <= i < s.len() && (#[trigger] s[i]).0 == p;
            if p == s.last().0 {
            } else {
                assert(i < s.len() - 1);
                assert(s.drop_last()[i].0 == p);
                assert(assoc_map(s.drop_last()).dom().contains(p));
            }
        }
    }
}

/// The map denoted by pairs (k + offset, k) inverts the shift: its domain is
/// the source domain shifted, its values undo the shift, and it is exactly
/// as large as the source map.
proof fn lemma_assoc_unshift(s: Seq<(u16, Seq<char>)>, t: Seq<(u16, u16)>)
    requires
        t.len() == s.len(),
        forall|i: int|
            0 <= i < s.len() ==> (#[trigger] s[i]).0 + PSEUDO_OFFSET <= u16::MAX && t[i] == (
            (s[i].0 + PSEUDO_OFFSET) as u16,
            s[i].0,
            ),
    ensures
        forall|q: u16| #[trigger]
            assoc_map(t).dom().contains(q) <==> (q >= PSEUDO_OFFSET && assoc_map(s).dom().contains(
            (q - PSEUDO_OFFSET) as u16)),
        forall|q: u16| #[trigger]
            assoc_map(t).dom().contains(q) ==> assoc_map(t)[q] == (q - PSEUDO_OFFSET) as u16,
        assoc_map(t).dom().finite(),
        assoc_map(s).dom().finite(),
        assoc_map(t).dom().len() == assoc_map(s).dom().len(),
    decreases s.len(),
{
    lemma_assoc_map_dom(s);
    lemma_assoc_map_dom(t);
    if s.len() > 0 {
        assert(forall|i: int|
            0 <= i < s.drop_last().len() ==> (#[trigger] s.drop_last()[i]) == s[i]
                && t.drop_last()[i] == t[i]);
        lemma_assoc_unshift(s.drop_last(), t.drop_last());
        lemma_assoc_map_dom(s.drop_last());
        lemma_assoc_map_dom(t.drop_last());
        let kn = s.last().0;
        let qn = t.last().0;
        assert(qn == (kn + PSEUDO_OFFSET) as u16);
        assert forall|q: u16| #[trigger]
            assoc_map(t).dom().contains(q) implies (q >= PSEUDO_OFFSET && assoc_map(
            s,
        ).dom().contains((q - PSEUDO_OFFSET) as u16)) by {
            let i = choose|i: int| 0 <= i < t.len() && (#[trigger] t[i]).0 == q;
            assert(q == (s[i].0 + PSEUDO_OFFSET) as u16);
            assert(s[i].0 == (q - PSEUDO_OFFSET) as u16);
        }
        assert forall|q: u16| (q >= PSEUDO_OFFSET && assoc_map(s).dom().contains(
            (q - PSEUDO_OFFSET) as u16,
        )) implies #[trigger] assoc_map(t).dom().contains(q) by {
            let i = choose|i: int| 0 <= i < s.len() && (#[trigger] s[i]).0 == (q
                - PSEUDO_OFFSET) as u16;
            assert(t[i].0 == q);
        }
        assert forall|q: u16| #[trigger] assoc_map(t).dom().contains(q) implies assoc_map(t)[q]
            == (q - PSEUDO_OFFSET) as u16 by {
            if q == qn {
            } else {
                assert(assoc_map(t) == assoc_map(t.drop_last()).insert(qn, kn));
                assert(assoc_map(t.drop_last()).dom().contains(q));
            }
        }
        // The domains grow in step: the new key is fresh in the source map
        // exactly when its shifted form is fresh in the inverse map.
        assert(assoc_map(s).dom() =~= assoc_map(s.drop_last()).dom().insert(kn));
        assert(assoc_map(t).dom() =~= assoc_map(t.drop_last()).dom().insert(qn));
        if assoc_map(s.drop_last()).dom().contains(kn) {
            assert(assoc_map(t.drop_last()).dom().contains(qn));
            assert(assoc_map(s).dom() =~= assoc_map(s.drop_last()).dom());
            assert(assoc_map(t).dom() =~= assoc_map(t.drop_last()).dom());
        } else {
            assert(!assoc_map(t.drop_last()).dom().contains(qn)) by {
                if assoc_map(t.drop_last()).dom().contains(qn) {
                    assert(assoc_map(s.drop_last()).dom().contains((qn - PSEUDO_OFFSET) as u16));
                }
            }
        }
    }
}

} // verus!
