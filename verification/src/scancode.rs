//! The scancodes of the keys that the browser reacts to. They are the codes
//! of the Linux input layer, which the terminal front end reports.

use vstd::prelude::*;

verus! {

pub const Q: u16 = 16;

pub const Y: u16 = 21;

pub const ENTER: u16 = 28;

pub const L_CTRL: u16 = 29;

pub const S: u16 = 31;

pub const D: u16 = 32;

pub const H: u16 = 35;

pub const APOSTROPHE: u16 = 40;

pub const L_SHIFT: u16 = 42;

pub const N: u16 = 49;

pub const R_SHIFT: u16 = 54;

pub const L_ALT: u16 = 56;

pub const R_CTRL: u16 = 97;

pub const R_ALT: u16 = 100;

pub const UP: u16 = 103;

pub const PAGEUP: u16 = 104;

pub const LEFT: u16 = 105;

pub const RIGHT: u16 = 106;

pub const DOWN: u16 = 108;

} // verus!
