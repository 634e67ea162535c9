//! X11 keysym values (from the X protocol's keysym table) for the keys the
//! bindings name.

use vstd::prelude::*;

verus! {

pub const KEY_SPACE: u32 = 0x0020;
pub const KEY_MINUS: u32 = 0x002d;
pub const KEY_0: u32 = 0x0030;
pub const KEY_EQUAL: u32 = 0x003d;
pub const KEY_UPPER_A: u32 = 0x0041;
pub const KEY_UPPER_Z: u32 = 0x005a;
pub const KEY_LOWER_A: u32 = 0x0061;
pub const KEY_C: u32 = 0x0063;
pub const KEY_E: u32 = 0x0065;
pub const KEY_F: u32 = 0x0066;
pub const KEY_N: u32 = 0x006e;
pub const KEY_V: u32 = 0x0076;
pub const KEY_BACKSPACE: u32 = 0xff08;
pub const KEY_TAB: u32 = 0xff09;
pub const KEY_RETURN: u32 = 0xff0d;
pub const KEY_ESCAPE: u32 = 0xff1b;
pub const KEY_HOME: u32 = 0xff50;
pub const KEY_LEFT: u32 = 0xff51;
pub const KEY_UP: u32 = 0xff52;
pub const KEY_RIGHT: u32 = 0xff53;
pub const KEY_DOWN: u32 = 0xff54;
pub const KEY_PAGE_UP: u32 = 0xff55;
pub const KEY_PAGE_DOWN: u32 = 0xff56;
pub const KEY_END: u32 = 0xff57;
pub const KEY_INSERT: u32 = 0xff63;
pub const KEY_F1: u32 = 0xffbe;
pub const KEY_F2: u32 = 0xffbf;
pub const KEY_F3: u32 = 0xffc0;
pub const KEY_F4: u32 = 0xffc1;
pub const KEY_F5: u32 = 0xffc2;
pub const KEY_F6: u32 = 0xffc3;
pub const KEY_F7: u32 = 0xffc4;
pub const KEY_F8: u32 = 0xffc5;
pub const KEY_F9: u32 = 0xffc6;
pub const KEY_F10: u32 = 0xffc7;
pub const KEY_F11: u32 = 0xffc8;
pub const KEY_F12: u32 = 0xffc9;
pub const KEY_DELETE: u32 = 0xffff;

} // verus!
