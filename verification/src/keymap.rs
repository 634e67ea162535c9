//! Mapping XKB keysyms to the emulator's physical key identities, the
//! modifier state handed to the key encoder, and the unshifted codepoint
//! of a keysym.

use vstd::prelude::*;

verus! {

/// A physical key, as the key encoder identifies it. Letters, digits,
/// numpad digits and function keys carry their index (`Letter(0)` is A,
/// `Function(1)` is F1).
#[derive(Debug, Clone, Copy, PartialEq, Eq, Structural)]
pub enum KeyId {
    Unidentified,
    Letter(u8),
    Digit(u8),
    Numpad(u8),
    Function(u8),
    Space,
    Enter,
    Escape,
    Backspace,
    Tab,
    ArrowLeft,
    ArrowRight,
    ArrowUp,
    ArrowDown,
    Home,
    End,
    PageUp,
    PageDown,
    Insert,
    Delete,
    ShiftLeft,
    ShiftRight,
    ControlLeft,
    ControlRight,
    AltLeft,
    AltRight,
    MetaLeft,
    MetaRight,
    CapsLock,
    NumLock,
    Semicolon,
    Quote,
    Backquote,
    Comma,
    Period,
    Slash,
    Backslash,
    Minus,
    Equal,
    BracketLeft,
    BracketRight,
    NumpadEnter,
    NumpadAdd,
    NumpadSubtract,
    NumpadMultiply,
    NumpadDivide,
    NumpadDecimal,
    NumpadSeparator,
    NumpadEqual,
    NumpadHome,
    NumpadEnd,
    NumpadUp,
    NumpadDown,
    NumpadLeft,
    NumpadRight,
    NumpadPageUp,
    NumpadPageDown,
    NumpadBegin,
    NumpadInsert,
    NumpadDelete,
}

/// The key that keysym `keysym` is on: letters of either case map to the
/// same key; keysyms without a key (shifted symbols among them) are
/// unidentified.
pub open spec fn spec_key_id(keysym: u32) -> KeyId {
    if 0x61 <= keysym <= 0x7a {
        KeyId::Letter((keysym - 0x61) as u8)
    } else if 0x41 <= keysym <= 0x5a {
        KeyId::Letter((keysym - 0x41) as u8)
    } else if 0x30 <= keysym <= 0x39 {
        KeyId::Digit((keysym - 0x30) as u8)
    } else if 0xffbe <= keysym <= 0xffc9 {
        KeyId::Function((keysym - 0xffbe + 1) as u8)
    } else if 0xffb0 <= keysym <= 0xffb9 {
        KeyId::Numpad((keysym - 0xffb0) as u8)
    } else if keysym == 0x20 {
        KeyId::Space
    } else if keysym == 0xff0d {
        KeyId::Enter
    } else if keysym == 0xff1b {
        KeyId::Escape
    } else if keysym == 0xff08 {
        KeyId::Backspace
    } else if keysym == 0xff09 {
        KeyId::Tab
    } else if keysym == 0xff51 {
        KeyId::ArrowLeft
    } else if keysym == 0xff53 {
        KeyId::ArrowRight
    } else if keysym == 0xff52 {
        KeyId::ArrowUp
    } else if keysym == 0xff54 {
        KeyId::ArrowDown
    } else if keysym == 0xff50 {
        KeyId::Home
    } else if keysym == 0xff57 {
        KeyId::End
    } else if keysym == 0xff55 {
        KeyId::PageUp
    } else if keysym == 0xff56 {
        KeyId::PageDown
    } else if keysym == 0xff63 {
        KeyId::Insert
    } else if keysym == 0xffff {
        KeyId::Delete
    } else if keysym == 0xffe1 {
        KeyId::ShiftLeft
    } else if keysym == 0xffe2 {
        KeyId::ShiftRight
    } else if keysym == 0xffe3 {
        KeyId::ControlLeft
    } else if keysym == 0xffe4 {
        KeyId::ControlRight
    } else if keysym == 0xffe9 {
        KeyId::AltLeft
    } else if keysym == 0xffea {
        KeyId::AltRight
    } else if keysym == 0xffeb {
        KeyId::MetaLeft
    } else if keysym == 0xffec {
        KeyId::MetaRight
    } else if keysym == 0xffe5 {
        KeyId::CapsLock
    } else if keysym == 0xff7f {
        KeyId::NumLock
    } else if keysym == 0x3b {
        KeyId::Semicolon
    } else if keysym == 0x27 {
        KeyId::Quote
    } else if keysym == 0x60 {
        KeyId::Backquote
    } else if keysym == 0x2c {
        KeyId::Comma
    } else if keysym == 0x2e {
        KeyId::Period
    } else if keysym == 0x2f {
        KeyId::Slash
    } else if keysym == 0x5c {
        KeyId::Backslash
    } else if keysym == 0x2d {
        KeyId::Minus
    } else if keysym == 0x3d {
        KeyId::Equal
    } else if keysym == 0x5b {
        KeyId::BracketLeft
    } else if keysym == 0x5d {
        KeyId::BracketRight
    } else if keysym == 0xff8d {
        KeyId::NumpadEnter
    } else if keysym == 0xffab {
        KeyId::NumpadAdd
    } else if keysym == 0xffad {
        KeyId::NumpadSubtract
    } else if keysym == 0xffaa {
        KeyId::NumpadMultiply
    } else if keysym == 0xffaf {
        KeyId::NumpadDivide
    } else if keysym == 0xffae {
        KeyId::NumpadDecimal
    } else if keysym == 0xffac {
        KeyId::NumpadSeparator
    } else if keysym == 0xffbd {
        KeyId::NumpadEqual
    } else if keysym == 0xff95 {
        KeyId::NumpadHome
    } else if keysym == 0xff9c {
        KeyId::NumpadEnd
    } else if keysym == 0xff97 {
        KeyId::NumpadUp
    } else if keysym == 0xff99 {
        KeyId::NumpadDown
    } else if keysym == 0xff96 {
        KeyId::NumpadLeft
    } else if keysym == 0xff98 {
        KeyId::NumpadRight
    } else if keysym == 0xff9a {
        KeyId::NumpadPageUp
    } else if keysym == 0xff9b {
        KeyId::NumpadPageDown
    } else if keysym == 0xff9d {
        KeyId::NumpadBegin
    } else if keysym == 0xff9e {
        KeyId::NumpadInsert
    } else if keysym == 0xff9f {
        KeyId::NumpadDelete
    } else {
        KeyId::Unidentified
    }
}

/// Map an XKB keysym to the key it is on.
pub fn xkb_to_ghostty_key(keysym: u32) -> (k: KeyId)
    ensures
        k == spec_key_id(keysym),
{
    if 0x61 <= keysym && keysym <= 0x7a {
        KeyId::Letter((keysym - 0x61) as u8)
    } else if 0x41 <= keysym && keysym <= 0x5a {
        KeyId::Letter((keysym - 0x41) as u8)
    } else if 0x30 <= keysym && keysym <= 0x39 {
        KeyId::Digit((keysym - 0x30) as u8)
    } else if 0xffbe <= keysym && keysym <= 0xffc9 {
        KeyId::Function((keysym - 0xffbe + 1) as u8)
    } else if 0xffb0 <= keysym && keysym <= 0xffb9 {
        KeyId::Numpad((keysym - 0xffb0) as u8)
    } else if keysym == 0x20 {
        KeyId::Space
    } else if keysym == 0xff0d {
        KeyId::Enter
    } else if keysym == 0xff1b {
        KeyId::Escape
    } else if keysym == 0xff08 {
        KeyId::Backspace
    } else if keysym == 0xff09 {
        KeyId::Tab
    } else if keysym == 0xff51 {
        KeyId::ArrowLeft
    } else if keysym == 0xff53 {
        KeyId::ArrowRight
    } else if keysym == 0xff52 {
        KeyId::ArrowUp
    } else if keysym == 0xff54 {
        KeyId::ArrowDown
    } else if keysym == 0xff50 {
        KeyId::Home
    } else if keysym == 0xff57 {
        KeyId::End
    } else if keysym == 0xff55 {
        KeyId::PageUp
    } else if keysym == 0xff56 {
        KeyId::PageDown
    } else if keysym == 0xff63 {
        KeyId::Insert
    } else if keysym == 0xffff {
        KeyId::Delete
    } else if keysym == 0xffe1 {
        KeyId::ShiftLeft
    } else if keysym == 0xffe2 {
        KeyId::ShiftRight
    } else if keysym == 0xffe3 {
        KeyId::ControlLeft
    } else if keysym == 0xffe4 {
        KeyId::ControlRight
    } else if keysym == 0xffe9 {
        KeyId::AltLeft
    } else if keysym == 0xffea {
        KeyId::AltRight
    } else if keysym == 0xffeb {
        KeyId::MetaLeft
    } else if keysym == 0xffec {
        KeyId::MetaRight
    } else if keysym == 0xffe5 {
        KeyId::CapsLock
    } else if keysym == 0xff7f {
        KeyId::NumLock
    } else if keysym == 0x3b {
        KeyId::Semicolon
    } else if keysym == 0x27 {
        KeyId::Quote
    } else if keysym == 0x60 {
        KeyId::Backquote
    } else if keysym == 0x2c {
        KeyId::Comma
    } else if keysym == 0x2e {
        KeyId::Period
    } else if keysym == 0x2f {
        KeyId::Slash
    } else if keysym == 0x5c {
        KeyId::Backslash
    } else if keysym == 0x2d {
        KeyId::Minus
    } else if keysym == 0x3d {
        KeyId::Equal
    } else if keysym == 0x5b {
        KeyId::BracketLeft
    } else if keysym == 0x5d {
        KeyId::BracketRight
    } else if keysym == 0xff8d {
        KeyId::NumpadEnter
    } else if keysym == 0xffab {
        KeyId::NumpadAdd
    } else if keysym == 0xffad {
        KeyId::NumpadSubtract
    } else if keysym == 0xffaa {
        KeyId::NumpadMultiply
    } else if keysym == 0xffaf {
        KeyId::NumpadDivide
    } else if keysym == 0xffae {
        KeyId::NumpadDecimal
    } else if keysym == 0xffac {
        KeyId::NumpadSeparator
    } else if keysym == 0xffbd {
        KeyId::NumpadEqual
    } else if keysym == 0xff95 {
        KeyId::NumpadHome
    } else if keysym == 0xff9c {
        KeyId::NumpadEnd
    } else if keysym == 0xff97 {
        KeyId::NumpadUp
    } else if keysym == 0xff99 {
        KeyId::NumpadDown
    } else if keysym == 0xff96 {
        KeyId::NumpadLeft
    } else if keysym == 0xff98 {
        KeyId::NumpadRight
    } else if keysym == 0xff9a {
        KeyId::NumpadPageUp
    } else if keysym == 0xff9b {
        KeyId::NumpadPageDown
    } else if keysym == 0xff9d {
        KeyId::NumpadBegin
    } else if keysym == 0xff9e {
        KeyId::NumpadInsert
    } else if keysym == 0xff9f {
        KeyId::NumpadDelete
    } else {
        KeyId::Unidentified
    }
}

/// Keyboard modifier state packed as a bitmask: shift, ctrl, alt, logo,
/// caps lock and num lock, in that bit order.
#[derive(Debug, Clone, Copy, PartialEq, Eq, Structural)]
pub struct ModifierState(pub u8);

pub const MOD_SHIFT: u8 = 1;
pub const MOD_CTRL: u8 = 2;
pub const MOD_ALT: u8 = 4;
pub const MOD_LOGO: u8 = 8;
pub const MOD_CAPS_LOCK: u8 = 16;
pub const MOD_NUM_LOCK: u8 = 32;

/// `bits` with `flag` added when `on`.
pub open spec fn with_flag(bits: u8, flag: u8, on: bool) -> u8 {
    if on { bits | flag } else { bits }
}

impl Default for ModifierState {
    fn default() -> (m: Self)
        ensures
            m.0 == 0,
    {
        ModifierState(0)
    }
}

impl ModifierState {
    /// Start with an empty state and chain `with_*` calls.
    pub fn empty() -> (m: Self)
        ensures
            m.0 == 0,
    {
        ModifierState(0)
    }

    pub fn with_shift(self, on: bool) -> (m: Self)
        ensures
            m.0 == with_flag(self.0, MOD_SHIFT, on),
    {
        if on { ModifierState(self.0 | MOD_SHIFT) } else { self }
    }

    pub fn with_ctrl(self, on: bool) -> (m: Self)
        ensures
            m.0 == with_flag(self.0, MOD_CTRL, on),
    {
        if on { ModifierState(self.0 | MOD_CTRL) } else { self }
    }

    pub fn with_alt(self, on: bool) -> (m: Self)
        ensures
            m.0 == with_flag(self.0, MOD_ALT, on),
    {
        if on { ModifierState(self.0 | MOD_ALT) } else { self }
    }

    pub fn with_logo(self, on: bool) -> (m: Self)
        ensures
            m.0 == with_flag(self.0, MOD_LOGO, on),
    {
        if on { ModifierState(self.0 | MOD_LOGO) } else { self }
    }

    pub fn with_caps_lock(self, on: bool) -> (m: Self)
        ensures
            m.0 == with_flag(self.0, MOD_CAPS_LOCK, on),
    {
        if on { ModifierState(self.0 | MOD_CAPS_LOCK) } else { self }
    }

    pub fn with_num_lock(self, on: bool) -> (m: Self)
        ensures
            m.0 == with_flag(self.0, MOD_NUM_LOCK, on),
    {
        if on { ModifierState(self.0 | MOD_NUM_LOCK) } else { self }
    }

    /// Whether `flag` is set.
    pub fn has(self, flag: u8) -> (b: bool)
        ensures
            b == (self.0 & flag != 0),
    {
        self.0 & flag != 0
    }
}

/// Turning a modifier on sets its own bit and leaves the others as they
/// were, so the builder calls commute and repeating one changes nothing.
pub proof fn law_modifier_flags_independent(bits: u8, k: u8, j: u8)
    requires
        k < 6,
        j < 6,
    ensures
        ({
            let f = (1u8 << k) as u8;
            let g = (1u8 << j) as u8;
            &&& (with_flag(bits, f, true) & f) != 0
            &&& k != j ==> ((with_flag(bits, f, true) & g) != 0) == ((bits & g) != 0)
            &&& with_flag(with_flag(bits, f, true), f, true) == with_flag(bits, f, true)
            &&& with_flag(with_flag(bits, f, true), g, true) == with_flag(with_flag(bits, g, true), f, true)
        }),
{
    assert({
        let f = (1u8 << k) as u8;
        let g = (1u8 << j) as u8;
        &&& ((bits | f) & f) != 0
        &&& k != j ==> (((bits | f) & g) != 0) == ((bits & g) != 0)
        &&& ((bits | f) | f) == (bits | f)
        &&& ((bits | f) | g) == ((bits | g) | f)
    }) by (bit_vector)
        requires
            k < 6,
            j < 6,
    ;
}

/// The Unicode codepoint of the unshifted key: letters in lower case,
/// digits and the ASCII symbols as themselves, 0 for keys without one.
pub open spec fn spec_unshifted_codepoint(keysym: u32) -> u32 {
    if 0x41 <= keysym <= 0x5a {
        (keysym - 0x41 + 0x61) as u32
    } else if (0x61 <= keysym <= 0x7a) || (0x30 <= keysym <= 0x39) {
        keysym
    } else if keysym == 0x20 || keysym == 0x2d || keysym == 0x3d || keysym == 0x5b || keysym == 0x5d
        || keysym == 0x5c || keysym == 0x3b || keysym == 0x27 || keysym == 0x60 || keysym == 0x2c
        || keysym == 0x2e || keysym == 0x2f {
        keysym
    } else {
        0
    }
}

/// Return the Unicode codepoint for the unshifted version of a keysym.
pub fn unshifted_codepoint(keysym: u32) -> (cp: u32)
    ensures
        cp == spec_unshifted_codepoint(keysym),
{
    if 0x41 <= keysym && keysym <= 0x5a {
        keysym - 0x41 + 0x61
    } else if (0x61 <= keysym && keysym <= 0x7a) || (0x30 <= keysym && keysym <= 0x39) {
        keysym
    } else if keysym == 0x20 || keysym == 0x2d || keysym == 0x3d || keysym == 0x5b || keysym == 0x5d
        || keysym == 0x5c || keysym == 0x3b || keysym == 0x27 || keysym == 0x60 || keysym == 0x2c
        || keysym == 0x2e || keysym == 0x2f {
        keysym
    } else {
        0
    }
}

} // verus!
