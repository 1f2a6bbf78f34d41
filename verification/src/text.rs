//! Case normalization for layout labels and user-written key names.
//!
//! Lookups into the name index are case-insensitive: both the stored labels
//! and the queried names are folded to upper case, ASCII letters only, so
//! that the index and the resolver agree on one canonical form.

use vstd::prelude::*;

verus! {

/// The canonical comparison form of one character: ASCII lower-case letters
/// are mapped to their upper-case counterpart, everything else is kept.
pub open spec fn upper_char(c: char) -> char {
    if 'a' <= c && c <= 'z' {
        ((c as u32) - 32) as char
    } else {
        c
    }
}

/// The canonical comparison form of a string of characters.
pub open spec fn upper_seq(s: Seq<char>) -> Seq<char> {
    s.map_values(|c: char| upper_char(c))
}

/// Folds one character to its canonical comparison form.
pub fn upper_char_exec(c: char) -> (r: char)
    ensures
        r == upper_char(c),
{
    if 'a' <= c && c <= 'z' {
        let b = (c as u8) - 32;
        b as char
    } else {
        c
    }
}

/// Folding to the canonical form twice is the same as folding once.
pub proof fn lemma_upper_idempotent(s: Seq<char>)
    ensures
        upper_seq(upper_seq(s)) == upper_seq(s),
{
    assert(upper_seq(upper_seq(s)) =~= upper_seq(s));
}

/// Case folding distributes over concatenation.
pub proof fn lemma_upper_concat(a: Seq<char>, b: Seq<char>)
    ensures
        upper_seq(a + b) == upper_seq(a) + upper_seq(b),
{
    assert(upper_seq(a + b) =~= upper_seq(a) + upper_seq(b));
}

/// Folds a user-written name to its canonical comparison form.
pub fn to_upper_chars(s: &str) -> (r: Vec<char>)
    ensures
        r@ == upper_seq(s@),
{
    let n = s.unicode_len();
    let mut r: Vec<char> = Vec::new();
    let mut i: usize = 0;
    while i < n
        invariant
            n == s@.len(),
            i <= n,
            r@ == upper_seq(s@.take(i as int)),
        decreases n - i,
    {
        let c = s.get_char(i);
        r.push(upper_char_exec(c));
        proof {
            assert(s@.take(i + 1).drop_last() == s@.take(i as int));
            assert(r@ =~= upper_seq(s@.take(i + 1)));
        }
        i = i + 1;
    }
    proof {
        assert(s@.take(n as int) == s@);
    }
    r
}

/// Decides whether two character strings are equal.
pub fn chars_eq(a: &Vec<char>, b: &Vec<char>) -> (r: bool)
    ensures
        r == (a@ == b@),
{
    if a.len() != b.len() {
        proof {
            assert(a@ != b@);
        }
        return false;
    }
    let mut i: usize = 0;
    while i < a.len()
        invariant
            a@.len() == b@.len(),
            i <= a@.len(),
            forall|j: int| 0 <= j < i ==> a@[j] == b@[j],
        decreases a@.len() - i,
    {
        if a[i] != b[i] {
            return false;
        }
        i = i + 1;
    }
    proof {
        assert(a@ =~= b@);
    }
    true
}

/// The `KEY_` prefix that a key name may carry in place of the bare label.
pub open spec fn key_prefix() -> Seq<char> {
    seq!['K', 'E', 'Y', '_']
}

/// The prefix contains no lower-case letter, so case folding keeps it.
pub proof fn lemma_upper_key_prefix()
    ensures
        upper_seq(key_prefix()) == key_prefix(),
{
    assert(upper_seq(key_prefix()) =~= key_prefix());
}

/// Whether a canonical name carries the `KEY_` prefix.
pub open spec fn has_key_prefix(s: Seq<char>) -> bool {
    s.len() >= 4 && s.take(4) == key_prefix()
}

/// Decides whether a canonical name carries the `KEY_` prefix.
pub fn has_key_prefix_exec(s: &Vec<char>) -> (r: bool)
    ensures
        r == has_key_prefix(s@),
{
    if s.len() >= 4 && s[0] == 'K' && s[1] == 'E' && s[2] == 'Y' && s[3] == '_' {
        proof {
            assert(s@.take(4) =~= key_prefix());
        }
        true
    } else {
        proof {
            if s@.len() >= 4 && s@.take(4) == key_prefix() {
                assert(s@[0] == s@.take(4)[0]);
                assert(s@[1] == s@.take(4)[1]);
                assert(s@[2] == s@.take(4)[2]);
                assert(s@[3] == s@.take(4)[3]);
            }
        }
        false
    }
}

/// Prepends the `KEY_` prefix to a canonical name.
pub fn with_key_prefix(s: &Vec<char>) -> (r: Vec<char>)
    ensures
        r@ == key_prefix() + s@,
{
    let mut r: Vec<char> = vec!['K', 'E', 'Y', '_'];
    let mut i: usize = 0;
    while i < s.len()
        invariant
            i <= s@.len(),
            r@ == key_prefix() + s@.take(i as int),
        decreases s@.len() - i,
    {
        r.push(s[i]);
        proof {
            assert(r@ =~= key_prefix() + s@.take(i + 1));
        }
        i = i + 1;
    }
    proof {
        assert(s@.take(s@.len() as int) == s@);
    }
    r
}

/// Strips the `KEY_` prefix from a canonical name that carries it.
pub fn without_key_prefix(s: &Vec<char>) -> (r: Vec<char>)
    requires
        s@.len() >= 4,
    ensures
        r@ == s@.skip(4),
{
    let mut r: Vec<char> = Vec::new();
    let mut i: usize = 4;
    while i < s.len()
        invariant
            4 <= i <= s@.len(),
            r@ == s@.subrange(4, i as int),
        decreases s@.len() - i,
    {
        r.push(s[i]);
        proof {
            assert(r@ =~= s@.subrange(4, i + 1));
        }
        i = i + 1;
    }
    proof {
        assert(r@ =~= s@.skip(4));
    }
    r
}

} // verus!
