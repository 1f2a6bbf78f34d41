//! Physical key codes of the input subsystem.
//!
//! These are the stable numeric identities under which the Linux input
//! subsystem reports keys (its input-event-codes), for the keys a layout
//! table mentions.  Only the numeric identity matters to this crate: no live
//! device is consulted.

use vstd::prelude::*;

verus! {

pub const KEY_1: u16 = 2;

pub const KEY_2: u16 = 3;

pub const KEY_3: u16 = 4;

pub const KEY_4: u16 = 5;

pub const KEY_5: u16 = 6;

pub const KEY_6: u16 = 7;

pub const KEY_7: u16 = 8;

pub const KEY_8: u16 = 9;

pub const KEY_9: u16 = 10;

pub const KEY_0: u16 = 11;

pub const KEY_MINUS: u16 = 12;

pub const KEY_EQUAL: u16 = 13;

pub const KEY_Q: u16 = 16;

pub const KEY_W: u16 = 17;

pub const KEY_E: u16 = 18;

pub const KEY_R: u16 = 19;

pub const KEY_T: u16 = 20;

pub const KEY_Y: u16 = 21;

pub const KEY_U: u16 = 22;

pub const KEY_I: u16 = 23;

pub const KEY_O: u16 = 24;

pub const KEY_P: u16 = 25;

pub const KEY_LEFTBRACE: u16 = 26;

pub const KEY_RIGHTBRACE: u16 = 27;

pub const KEY_A: u16 = 30;

pub const KEY_S: u16 = 31;

pub const KEY_D: u16 = 32;

pub const KEY_F: u16 = 33;

pub const KEY_G: u16 = 34;

pub const KEY_H: u16 = 35;

pub const KEY_J: u16 = 36;

pub const KEY_K: u16 = 37;

pub const KEY_L: u16 = 38;

pub const KEY_SEMICOLON: u16 = 39;

pub const KEY_APOSTROPHE: u16 = 40;

pub const KEY_GRAVE: u16 = 41;

pub const KEY_BACKSLASH: u16 = 43;

pub const KEY_Z: u16 = 44;

pub const KEY_X: u16 = 45;

pub const KEY_C: u16 = 46;

pub const KEY_V: u16 = 47;

pub const KEY_B: u16 = 48;

pub const KEY_N: u16 = 49;

pub const KEY_M: u16 = 50;

pub const KEY_COMMA: u16 = 51;

pub const KEY_DOT: u16 = 52;

pub const KEY_SLASH: u16 = 53;

pub const KEY_SPACE: u16 = 57;

} // verus!
