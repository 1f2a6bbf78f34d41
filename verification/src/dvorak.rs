//! The Dvorak seed table.
//!
//! A hand-authored enumeration of (physical key code, layout label) pairs:
//! what each physical key means once the operating system has been switched
//! into the Dvorak layout, relative to the natural hardware key identities.
//! Keys whose Dvorak meaning equals their physical meaning are omitted; the
//! derived indices tolerate that.  Swapping layouts means swapping this
//! table wholesale: everything else is layout-agnostic.

use vstd::prelude::*;

use crate::codes::{
    KEY_0, KEY_1, KEY_2, KEY_3, KEY_4, KEY_5, KEY_6, KEY_7, KEY_8, KEY_9, KEY_A, KEY_APOSTROPHE,
    KEY_B, KEY_BACKSLASH, KEY_C, KEY_COMMA, KEY_D, KEY_DOT, KEY_E, KEY_EQUAL, KEY_F, KEY_G,
    KEY_GRAVE, KEY_H, KEY_I, KEY_J, KEY_K, KEY_L, KEY_LEFTBRACE, KEY_M, KEY_MINUS, KEY_N, KEY_O,
    KEY_P, KEY_Q, KEY_R, KEY_RIGHTBRACE, KEY_S, KEY_SEMICOLON, KEY_SLASH, KEY_SPACE, KEY_T, KEY_U,
    KEY_V, KEY_W, KEY_X, KEY_Y, KEY_Z,
};
use crate::layout::KeyboardLayout;
use crate::PSEUDO_OFFSET;

verus! {

/// The Dvorak table as a sequence of (key code, label) pairs.
pub open spec fn dvorak_seq() -> Seq<(u16, Seq<char>)> {
    seq![
        (KEY_GRAVE, "`"@),
        (KEY_1, "1"@),
        (KEY_2, "2"@),
        (KEY_3, "3"@),
        (KEY_4, "4"@),
        (KEY_5, "5"@),
        (KEY_6, "6"@),
        (KEY_7, "7"@),
        (KEY_8, "8"@),
        (KEY_9, "9"@),
        (KEY_0, "0"@),
        (KEY_MINUS, "["@),
        (KEY_EQUAL, "]"@),
        (KEY_Q, "'"@),
        (KEY_W, ","@),
        (KEY_E, "."@),
        (KEY_R, "p"@),
        (KEY_T, "y"@),
        (KEY_Y, "f"@),
        (KEY_U, "g"@),
        (KEY_I, "c"@),
        (KEY_O, "r"@),
        (KEY_P, "l"@),
        (KEY_LEFTBRACE, "/"@),
        (KEY_RIGHTBRACE, "="@),
        (KEY_BACKSLASH, "\\"@),
        (KEY_A, "a"@),
        (KEY_S, "o"@),
        (KEY_D, "e"@),
        (KEY_F, "u"@),
        (KEY_G, "i"@),
        (KEY_H, "d"@),
        (KEY_J, "h"@),
        (KEY_K, "t"@),
        (KEY_L, "n"@),
        (KEY_SEMICOLON, "s"@),
        (KEY_APOSTROPHE, "-"@),
        (KEY_Z, ";"@),
        (KEY_X, "q"@),
        (KEY_C, "j"@),
        (KEY_V, "k"@),
        (KEY_B, "x"@),
        (KEY_N, "b"@),
        (KEY_M, "m"@),
        (KEY_COMMA, "w"@),
        (KEY_DOT, "v"@),
        (KEY_SLASH, "z"@),
        (KEY_SPACE, " "@),
    ]
}

/// Builds the Dvorak seed table.
pub fn dvorak_table() -> (r: Vec<(u16, String)>)
    ensures
        r@.map_values(|p: (u16, String)| (p.0, p.1@)) == dvorak_seq(),
        forall|i: int| 0 <= i < r@.len() ==> (#[trigger] r@[i]).0 + PSEUDO_OFFSET <= u16::MAX,
{
    let mut t: Vec<(u16, String)> = Vec::new();
    t.push((KEY_GRAVE, "`".to_owned()));
    t.push((KEY_1, "1".to_owned()));
    t.push((KEY_2, "2".to_owned()));
    t.push((KEY_3, "3".to_owned()));
    t.push((KEY_4, "4".to_owned()));
    t.push((KEY_5, "5".to_owned()));
    t.push((KEY_6, "6".to_owned()));
    t.push((KEY_7, "7".to_owned()));
    t.push((KEY_8, "8".to_owned()));
    t.push((KEY_9, "9".to_owned()));
    t.push((KEY_0, "0".to_owned()));
    t.push((KEY_MINUS, "[".to_owned()));
    t.push((KEY_EQUAL, "]".to_owned()));
    t.push((KEY_Q, "'".to_owned()));
    t.push((KEY_W, ",".to_owned()));
    t.push((KEY_E, ".".to_owned()));
    t.push((KEY_R, "p".to_owned()));
    t.push((KEY_T, "y".to_owned()));
    t.push((KEY_Y, "f".to_owned()));
    t.push((KEY_U, "g".to_owned()));
    t.push((KEY_I, "c".to_owned()));
    t.push((KEY_O, "r".to_owned()));
    t.push((KEY_P, "l".to_owned()));
    t.push((KEY_LEFTBRACE, "/".to_owned()));
    t.push((KEY_RIGHTBRACE, "=".to_owned()));
    t.push((KEY_BACKSLASH, "\\".to_owned()));
    t.push((KEY_A, "a".to_owned()));
    t.push((KEY_S, "o".to_owned()));
    t.push((KEY_D, "e".to_owned()));
    t.push((KEY_F, "u".to_owned()));
    t.push((KEY_G, "i".to_owned()));
    t.push((KEY_H, "d".to_owned()));
    t.push((KEY_J, "h".to_owned()));
    t.push((KEY_K, "t".to_owned()));
    t.push((KEY_L, "n".to_owned()));
    t.push((KEY_SEMICOLON, "s".to_owned()));
    t.push((KEY_APOSTROPHE, "-".to_owned()));
    t.push((KEY_Z, ";".to_owned()));
    t.push((KEY_X, "q".to_owned()));
    t.push((KEY_C, "j".to_owned()));
    t.push((KEY_V, "k".to_owned()));
    t.push((KEY_B, "x".to_owned()));
    t.push((KEY_N, "b".to_owned()));
    t.push((KEY_M, "m".to_owned()));
    t.push((KEY_COMMA, "w".to_owned()));
    t.push((KEY_DOT, "v".to_owned()));
    t.push((KEY_SLASH, "z".to_owned()));
    t.push((KEY_SPACE, " ".to_owned()));
    proof {
        assert(t@.map_values(|p: (u16, String)| (p.0, p.1@)) =~~= dvorak_seq());
    }
    t
}

/// Builds the keyboard layout for Dvorak: the seed table with its three
/// derived indices.
pub fn dvorak_layout() -> (r: KeyboardLayout)
    ensures
        r.wf(),
        r.table_seq() == dvorak_seq(),
{
    KeyboardLayout::new(dvorak_table())
}

} // verus!
