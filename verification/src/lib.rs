//! Layout-independent key translation for an input remapper.
//!
//! A keyboard layout is seeded from an ordered table of
//! (physical key code, layout label) pairs.  From that table three indices
//! are derived once and never mutated: a forward index from physical key
//! codes to synthetic "pseudo" key codes, its exact inverse, and a name
//! index from case-normalized labels to pseudo key codes.  A resolver turns
//! a user-written key name into the physical key code it designates under
//! the layout.

use vstd::prelude::*;

pub mod assoc;
pub mod codes;
pub mod dvorak;
pub mod laws;
pub mod layout;
pub mod text;

verus! {

/// Pseudo key codes are physical key codes shifted by this offset, so the
/// two ranges can never intersect.
pub const PSEUDO_OFFSET: u16 = 40000;

} // verus!
