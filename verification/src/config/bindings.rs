//! Key bindings: key combinations mapped to terminal actions.

use vstd::prelude::*;
use super::keysym::{
    KEY_0, KEY_BACKSPACE, KEY_C, KEY_DELETE, KEY_DOWN, KEY_E, KEY_END, KEY_EQUAL, KEY_ESCAPE, KEY_F,
    KEY_F1, KEY_F10, KEY_F11, KEY_F12, KEY_F2, KEY_F3, KEY_F4, KEY_F5, KEY_F6, KEY_F7, KEY_F8, KEY_F9,
    KEY_HOME, KEY_INSERT, KEY_LEFT, KEY_LOWER_A, KEY_MINUS, KEY_N, KEY_PAGE_DOWN, KEY_PAGE_UP,
    KEY_RETURN, KEY_RIGHT, KEY_SPACE, KEY_TAB, KEY_UP, KEY_UPPER_A, KEY_UPPER_Z, KEY_V,
};
use crate::text::{
    chars_eq_str, find_char, find_char_exec, spec_eq_ignore_ascii_case, spec_split, spec_trim,
    split_from, str_chars, str_eq, str_slice, str_to_lowercase, trim_bounds, unicode_lowercase, is_ascii_seq, ascii_lowercase,
    eq_ignore_ascii_case,
};

verus! {

/// Actions that can be bound to key combinations.
#[derive(Debug, Clone, Copy, PartialEq, Eq, Structural)]
pub enum KeyAction {
    Copy,
    Paste,
    PrimaryPaste,
    ToggleFullscreen,
    Search,
    FontSizeUp,
    FontSizeDown,
    FontSizeReset,
    ScrollPageUp,
    ScrollPageDown,
    ScrollHalfPageUp,
    ScrollHalfPageDown,
    ScrollLineUp,
    ScrollLineDown,
    SpawnTerminal,
    ScrollbackEditor,
    Noop,
}

/// A key combination: XKB keysym + modifier flags.
#[derive(Debug, Clone, Copy, PartialEq, Eq, Structural)]
pub struct BindingKey {
    pub keysym: u32,
    pub ctrl: bool,
    pub shift: bool,
}

/// Configurable key-to-action bindings (parsed from `[key-bindings]`).
#[derive(Debug, Clone)]
pub struct Bindings {
    entries: Vec<(BindingKey, KeyAction)>,
}

impl View for Bindings {
    type V = Seq<(BindingKey, KeyAction)>;

    closed spec fn view(&self) -> Seq<(BindingKey, KeyAction)> {
        self.entries@
    }
}

/// The keysym that lookups use: ASCII uppercase letters become lowercase
/// (XKB reports the uppercase keysym while Shift is held).
pub open spec fn normalize_keysym(keysym: u32) -> u32 {
    if KEY_UPPER_A <= keysym <= KEY_UPPER_Z {
        (keysym + (KEY_LOWER_A - KEY_UPPER_A)) as u32
    } else {
        keysym
    }
}

/// The action of the first entry at or after `i` whose key is `key`.
pub open spec fn first_action(entries: Seq<(BindingKey, KeyAction)>, key: BindingKey, i: int) -> Option<KeyAction>
    decreases entries.len() - i,
{
    if i < 0 || i >= entries.len() {
        None
    } else if entries[i].0 == key {
        Some(entries[i].1)
    } else {
        first_action(entries, key, i + 1)
    }
}

/// What `lookup` answers: the first binding of the normalized key, with
/// `Noop` meaning "explicitly unbound".
pub open spec fn spec_lookup(entries: Seq<(BindingKey, KeyAction)>, keysym: u32, ctrl: bool, shift: bool) -> Option<KeyAction> {
    match first_action(entries, BindingKey { keysym: normalize_keysym(keysym), ctrl, shift }, 0) {
        Some(a) => if a == KeyAction::Noop { None } else { Some(a) },
        None => None,
    }
}

/// Entries that do not bind `action`.
pub open spec fn not_bound_to(action: KeyAction) -> spec_fn((BindingKey, KeyAction)) -> bool {
    |e: (BindingKey, KeyAction)| e.1 != action
}

/// Entries that bind neither `action` nor the key `bk`.
pub open spec fn unrelated_to(action: KeyAction, bk: BindingKey) -> spec_fn((BindingKey, KeyAction)) -> bool {
    |e: (BindingKey, KeyAction)| e.1 != action && e.0 != bk
}

/// The entries without any binding of `action`.
pub open spec fn spec_unbind(entries: Seq<(BindingKey, KeyAction)>, action: KeyAction) -> Seq<(BindingKey, KeyAction)> {
    entries.filter(not_bound_to(action))
}

/// The entries after binding `bk` to `action`: every earlier binding of
/// the action and of the key is dropped, the new one goes last.
pub open spec fn spec_set(entries: Seq<(BindingKey, KeyAction)>, action: KeyAction, bk: BindingKey) -> Seq<(BindingKey, KeyAction)> {
    entries.filter(unrelated_to(action, bk)).push((bk, action))
}

/// The default bindings, in order.
pub open spec fn spec_default_bindings() -> Seq<(BindingKey, KeyAction)> {
    seq![
        (BindingKey { keysym: KEY_C, ctrl: true, shift: true }, KeyAction::Copy),
        (BindingKey { keysym: KEY_V, ctrl: true, shift: true }, KeyAction::Paste),
        (BindingKey { keysym: KEY_F11, ctrl: false, shift: false }, KeyAction::ToggleFullscreen),
        (BindingKey { keysym: KEY_F, ctrl: true, shift: true }, KeyAction::Search),
        (BindingKey { keysym: KEY_EQUAL, ctrl: true, shift: false }, KeyAction::FontSizeUp),
        (BindingKey { keysym: KEY_MINUS, ctrl: true, shift: false }, KeyAction::FontSizeDown),
        (BindingKey { keysym: KEY_0, ctrl: true, shift: false }, KeyAction::FontSizeReset),
        (BindingKey { keysym: KEY_N, ctrl: true, shift: true }, KeyAction::SpawnTerminal),
        (BindingKey { keysym: KEY_E, ctrl: true, shift: true }, KeyAction::ScrollbackEditor),
        (BindingKey { keysym: KEY_INSERT, ctrl: false, shift: true }, KeyAction::PrimaryPaste),
        (BindingKey { keysym: KEY_PAGE_UP, ctrl: false, shift: true }, KeyAction::ScrollPageUp),
        (BindingKey { keysym: KEY_PAGE_DOWN, ctrl: false, shift: true }, KeyAction::ScrollPageDown),
    ]
}

fn entry(keysym: u32, ctrl: bool, shift: bool, action: KeyAction) -> (e: (BindingKey, KeyAction))
    ensures
        e == (BindingKey { keysym, ctrl, shift }, action),
{
    (BindingKey { keysym, ctrl, shift }, action)
}

impl Default for Bindings {
    fn default() -> (b: Self)
        ensures
            b@ == spec_default_bindings(),
    {
        let mut entries: Vec<(BindingKey, KeyAction)> = Vec::new();
        entries.push(entry(KEY_C, true, true, KeyAction::Copy)); // Ctrl+Shift+C
        entries.push(entry(KEY_V, true, true, KeyAction::Paste)); // Ctrl+Shift+V
        entries.push(entry(KEY_F11, false, false, KeyAction::ToggleFullscreen)); // F11
        entries.push(entry(KEY_F, true, true, KeyAction::Search)); // Ctrl+Shift+F
        entries.push(entry(KEY_EQUAL, true, false, KeyAction::FontSizeUp)); // Ctrl+=
        entries.push(entry(KEY_MINUS, true, false, KeyAction::FontSizeDown)); // Ctrl+-
        entries.push(entry(KEY_0, true, false, KeyAction::FontSizeReset)); // Ctrl+0
        entries.push(entry(KEY_N, true, true, KeyAction::SpawnTerminal)); // Ctrl+Shift+N
        entries.push(entry(KEY_E, true, true, KeyAction::ScrollbackEditor)); // Ctrl+Shift+E
        entries.push(entry(KEY_INSERT, false, true, KeyAction::PrimaryPaste)); // Shift+Insert
        entries.push(entry(KEY_PAGE_UP, false, true, KeyAction::ScrollPageUp)); // Shift+Page_Up
        entries.push(entry(KEY_PAGE_DOWN, false, true, KeyAction::ScrollPageDown)); // Shift+Page_Down
        let b = Bindings { entries };
        assert(b@ =~= spec_default_bindings());
        b
    }
}

impl Bindings {
    /// Look up a keybinding. Normalizes ASCII uppercase keysyms to lowercase.
    pub fn lookup(&self, keysym: u32, ctrl: bool, shift: bool) -> (r: Option<KeyAction>)
        ensures
            r == spec_lookup(self@, keysym, ctrl, shift),
    {
        // Normalize ASCII uppercase → lowercase (XKB sends uppercase when Shift held)
        let sym = if KEY_UPPER_A <= keysym && keysym <= KEY_UPPER_Z {
            keysym + (KEY_LOWER_A - KEY_UPPER_A)
        } else {
            keysym
        };
        let ghost key = BindingKey { keysym: sym, ctrl, shift };
        let n = self.entries.len();
        let mut i: usize = 0;
        while i < n
            invariant
                n == self.entries@.len(),
                0 <= i <= n,
                sym == normalize_keysym(keysym),
                key == (BindingKey { keysym: sym, ctrl, shift }),
                first_action(self@, key, 0) == first_action(self@, key, i as int),
            decreases n - i,
        {
            let (bk, action) = self.entries[i];
            if bk.keysym == sym && bk.ctrl == ctrl && bk.shift == shift {
                return if action == KeyAction::Noop {
                    None
                } else {
                    Some(action)
                };
            }
            i = i + 1;
        }
        None
    }

    /// Set or replace a binding for the given action. Removes any prior
    /// binding for the same action AND any prior binding on the same key combo.
    pub fn set(&mut self, action: KeyAction, bk: BindingKey)
        ensures
            final(self)@ == spec_set(old(self)@, action, bk),
    {
        let ghost pred = unrelated_to(action, bk);
        let n = self.entries.len();
        let mut kept: Vec<(BindingKey, KeyAction)> = Vec::new();
        let mut i: usize = 0;
        while i < n
            invariant
                n == self.entries@.len(),
                self@ == old(self)@,
                0 <= i <= n,
                pred == unrelated_to(action, bk),
                kept@ == self.entries@.take(i as int).filter(pred),
            decreases n - i,
        {
            let e = self.entries[i];
            proof {
                reveal_with_fuel(Seq::<_>::filter, 1);
                assert(self.entries@.take(i + 1).drop_last() =~= self.entries@.take(i as int));
            }
            if e.1 != action && !(e.0.keysym == bk.keysym && e.0.ctrl == bk.ctrl && e.0.shift == bk.shift) {
                kept.push(e);
            }
            i = i + 1;
        }
        assert(self.entries@.take(n as int) =~= self.entries@);
        kept.push((bk, action));
        self.entries = kept;
    }

    /// Unbind any binding that maps to the given action.
    pub fn unbind_action(&mut self, action: KeyAction)
        ensures
            final(self)@ == spec_unbind(old(self)@, action),
    {
        let ghost pred = not_bound_to(action);
        let n = self.entries.len();
        let mut kept: Vec<(BindingKey, KeyAction)> = Vec::new();
        let mut i: usize = 0;
        while i < n
            invariant
                n == self.entries@.len(),
                self@ == old(self)@,
                0 <= i <= n,
                pred == not_bound_to(action),
                kept@ == self.entries@.take(i as int).filter(pred),
            decreases n - i,
        {
            let e = self.entries[i];
            proof {
                reveal_with_fuel(Seq::<_>::filter, 1);
                assert(self.entries@.take(i + 1).drop_last() =~= self.entries@.take(i as int));
            }
            if e.1 != action {
                kept.push(e);
            }
            i = i + 1;
        }
        assert(self.entries@.take(n as int) =~= self.entries@);
        self.entries = kept;
    }
}


proof fn lemma_first_action_is_an_entry(entries: Seq<(BindingKey, KeyAction)>, key: BindingKey, i: int)
    ensures
        first_action(entries, key, i) matches Some(a) ==> exists|k: int|
            0 <= k < entries.len() && #[trigger] entries[k] == (key, a),
    decreases entries.len() - i,
{
    if 0 <= i < entries.len() && entries[i].0 != key {
        lemma_first_action_is_an_entry(entries, key, i + 1);
    }
}

proof fn lemma_first_action_skips_to_last(
    prefix: Seq<(BindingKey, KeyAction)>,
    last: (BindingKey, KeyAction),
    i: int,
)
    requires
        0 <= i <= prefix.len(),
        forall|k: int| 0 <= k < prefix.len() ==> (#[trigger] prefix[k]).0 != last.0,
    ensures
        first_action(prefix.push(last), last.0, i) == Some(last.1),
    decreases prefix.len() - i,
{
    if i < prefix.len() {
        assert(prefix.push(last)[i] == prefix[i]);
        lemma_first_action_skips_to_last(prefix, last, i + 1);
    }
}

/// Lookup ignores the case of ASCII letters: an uppercase letter finds
/// what its lowercase letter is bound to.
pub proof fn law_lookup_ignores_case(entries: Seq<(BindingKey, KeyAction)>, keysym: u32, ctrl: bool, shift: bool)
    requires
        KEY_UPPER_A <= keysym <= KEY_UPPER_Z,
    ensures
        spec_lookup(entries, keysym, ctrl, shift) == spec_lookup(entries, (keysym + 32) as u32, ctrl, shift),
{
}

/// Reading back a binding that was just set gives its action (or `None`
/// for `Noop`), whatever the bindings held before. Keys that lookup
/// normalizes (uppercase ASCII letters) are the exception: they are looked
/// up as their lowercase form.
pub proof fn law_lookup_after_set(entries: Seq<(BindingKey, KeyAction)>, action: KeyAction, bk: BindingKey)
    requires
        !(KEY_UPPER_A <= bk.keysym <= KEY_UPPER_Z),
    ensures
        spec_lookup(spec_set(entries, action, bk), bk.keysym, bk.ctrl, bk.shift) == if action
            == KeyAction::Noop {
            None
        } else {
            Some(action)
        },
{
    let f = entries.filter(unrelated_to(action, bk));
    assert forall|k: int| 0 <= k < f.len() implies (#[trigger] f[k]).0 != bk by {
        entries.lemma_filter_pred(unrelated_to(action, bk), k);
    }
    lemma_first_action_skips_to_last(f, (bk, action), 0);
    assert(BindingKey { keysym: normalize_keysym(bk.keysym), ctrl: bk.ctrl, shift: bk.shift } == bk);
}

/// After `set`, the action and the key are bound exactly once: by the new
/// binding, which comes last.
pub proof fn law_set_binds_once(entries: Seq<(BindingKey, KeyAction)>, action: KeyAction, bk: BindingKey)
    ensures
        ({
            let s = spec_set(entries, action, bk);
            &&& s.last() == (bk, action)
            &&& forall|k: int| 0 <= k < s.len() - 1 ==> (#[trigger] s[k]).1 != action && s[k].0 != bk
        }),
{
    let f = entries.filter(unrelated_to(action, bk));
    let s = spec_set(entries, action, bk);
    assert forall|k: int| 0 <= k < s.len() - 1 implies (#[trigger] s[k]).1 != action && s[k].0 != bk by {
        assert(s[k] == f[k]);
        entries.lemma_filter_pred(unrelated_to(action, bk), k);
    }
}

/// Once an action is unbound, no key looks it up any more.
pub proof fn law_lookup_after_unbind(
    entries: Seq<(BindingKey, KeyAction)>,
    action: KeyAction,
    keysym: u32,
    ctrl: bool,
    shift: bool,
)
    ensures
        spec_lookup(spec_unbind(entries, action), keysym, ctrl, shift) != Some(action),
{
    let u = spec_unbind(entries, action);
    let key = BindingKey { keysym: normalize_keysym(keysym), ctrl, shift };
    lemma_first_action_is_an_entry(u, key, 0);
    if let Some(a) = first_action(u, key, 0) {
        let k = choose|k: int| 0 <= k < u.len() && #[trigger] u[k] == (key, a);
        entries.lemma_filter_pred(not_bound_to(action), k);
    }
}


/// The action that foot's `[key-bindings]` name `name` denotes.
pub open spec fn spec_parse_binding_action(name: Seq<char>) -> Option<KeyAction> {
    if name == "clipboard-copy"@ {
        Some(KeyAction::Copy)
    } else if name == "clipboard-paste"@ {
        Some(KeyAction::Paste)
    } else if name == "primary-paste"@ {
        Some(KeyAction::PrimaryPaste)
    } else if name == "fullscreen"@ {
        Some(KeyAction::ToggleFullscreen)
    } else if name == "search-start"@ {
        Some(KeyAction::Search)
    } else if name == "font-increase"@ {
        Some(KeyAction::FontSizeUp)
    } else if name == "font-decrease"@ {
        Some(KeyAction::FontSizeDown)
    } else if name == "font-reset"@ {
        Some(KeyAction::FontSizeReset)
    } else if name == "scrollback-up-page"@ {
        Some(KeyAction::ScrollPageUp)
    } else if name == "scrollback-down-page"@ {
        Some(KeyAction::ScrollPageDown)
    } else if name == "scrollback-up-half-page"@ {
        Some(KeyAction::ScrollHalfPageUp)
    } else if name == "scrollback-down-half-page"@ {
        Some(KeyAction::ScrollHalfPageDown)
    } else if name == "scrollback-up-line"@ {
        Some(KeyAction::ScrollLineUp)
    } else if name == "scrollback-down-line"@ {
        Some(KeyAction::ScrollLineDown)
    } else if name == "spawn-terminal"@ {
        Some(KeyAction::SpawnTerminal)
    } else if name == "scrollback-editor"@ {
        Some(KeyAction::ScrollbackEditor)
    } else if name == "noop"@ {
        Some(KeyAction::Noop)
    } else {
        None
    }
}

/// Each foot action name stands for its own action: the table of names
/// and actions, and no two names share an action.
pub proof fn law_binding_action_names()
    ensures
        spec_parse_binding_action("clipboard-copy"@) == Some(KeyAction::Copy),
        spec_parse_binding_action("clipboard-paste"@) == Some(KeyAction::Paste),
        spec_parse_binding_action("primary-paste"@) == Some(KeyAction::PrimaryPaste),
        spec_parse_binding_action("fullscreen"@) == Some(KeyAction::ToggleFullscreen),
        spec_parse_binding_action("search-start"@) == Some(KeyAction::Search),
        spec_parse_binding_action("font-increase"@) == Some(KeyAction::FontSizeUp),
        spec_parse_binding_action("font-decrease"@) == Some(KeyAction::FontSizeDown),
        spec_parse_binding_action("font-reset"@) == Some(KeyAction::FontSizeReset),
        spec_parse_binding_action("scrollback-up-page"@) == Some(KeyAction::ScrollPageUp),
        spec_parse_binding_action("scrollback-down-page"@) == Some(KeyAction::ScrollPageDown),
        spec_parse_binding_action("scrollback-up-half-page"@) == Some(KeyAction::ScrollHalfPageUp),
        spec_parse_binding_action("scrollback-down-half-page"@) == Some(KeyAction::ScrollHalfPageDown),
        spec_parse_binding_action("scrollback-up-line"@) == Some(KeyAction::ScrollLineUp),
        spec_parse_binding_action("scrollback-down-line"@) == Some(KeyAction::ScrollLineDown),
        spec_parse_binding_action("spawn-terminal"@) == Some(KeyAction::SpawnTerminal),
        spec_parse_binding_action("scrollback-editor"@) == Some(KeyAction::ScrollbackEditor),
        spec_parse_binding_action("noop"@) == Some(KeyAction::Noop),
        forall|a: Seq<char>, b: Seq<char>|
            #![trigger spec_parse_binding_action(a), spec_parse_binding_action(b)]
            spec_parse_binding_action(a) is Some && spec_parse_binding_action(a) == spec_parse_binding_action(b) ==> a == b,
{
    reveal_strlit("clipboard-copy");
    reveal_strlit("clipboard-paste");
    reveal_strlit("primary-paste");
    reveal_strlit("fullscreen");
    reveal_strlit("search-start");
    reveal_strlit("font-increase");
    reveal_strlit("font-decrease");
    reveal_strlit("font-reset");
    reveal_strlit("scrollback-up-page");
    reveal_strlit("scrollback-down-page");
    reveal_strlit("scrollback-up-half-page");
    reveal_strlit("scrollback-down-half-page");
    reveal_strlit("scrollback-up-line");
    reveal_strlit("scrollback-down-line");
    reveal_strlit("spawn-terminal");
    reveal_strlit("scrollback-editor");
    reveal_strlit("noop");
    assert("clipboard-paste"@.len() != "clipboard-copy"@.len());
    assert("primary-paste"@.len() != "clipboard-copy"@.len());
    assert("primary-paste"@.len() != "clipboard-paste"@.len());
    assert("fullscreen"@.len() != "clipboard-copy"@.len());
    assert("fullscreen"@.len() != "clipboard-paste"@.len());
    assert("fullscreen"@.len() != "primary-paste"@.len());
    assert("search-start"@.len() != "clipboard-copy"@.len());
    assert("search-start"@.len() != "clipboard-paste"@.len());
    assert("search-start"@.len() != "primary-paste"@.len());
    assert("search-start"@.len() != "fullscreen"@.len());
    assert("font-increase"@.len() != "clipboard-copy"@.len());
    assert("font-increase"@.len() != "clipboard-paste"@.len());
    assert("font-increase"@[0] != "primary-paste"@[0]);
    assert("font-increase"@.len() != "fullscreen"@.len());
    assert("font-increase"@.len() != "search-start"@.len());
    assert("font-decrease"@.len() != "clipboard-copy"@.len());
    assert("font-decrease"@.len() != "clipboard-paste"@.len());
    assert("font-decrease"@[0] != "primary-paste"@[0]);
    assert("font-decrease"@.len() != "fullscreen"@.len());
    assert("font-decrease"@.len() != "search-start"@.len());
    assert("font-decrease"@[5] != "font-increase"@[5]);
    assert("font-reset"@.len() != "clipboard-copy"@.len());
    assert("font-reset"@.len() != "clipboard-paste"@.len());
    assert("font-reset"@.len() != "primary-paste"@.len());
    assert("font-reset"@[1] != "fullscreen"@[1]);
    assert("font-reset"@.len() != "search-start"@.len());
    assert("font-reset"@.len() != "font-increase"@.len());
    assert("font-reset"@.len() != "font-decrease"@.len());
    assert("scrollback-up-page"@.len() != "clipboard-copy"@.len());
    assert("scrollback-up-page"@.len() != "clipboard-paste"@.len());
    assert("scrollback-up-page"@.len() != "primary-paste"@.len());
    assert("scrollback-up-page"@.len() != "fullscreen"@.len());
    assert("scrollback-up-page"@.len() != "search-start"@.len());
    assert("scrollback-up-page"@.len() != "font-increase"@.len());
    assert("scrollback-up-page"@.len() != "font-decrease"@.len());
    assert("scrollback-up-page"@.len() != "font-reset"@.len());
    assert("scrollback-down-page"@.len() != "clipboard-copy"@.len());
    assert("scrollback-down-page"@.len() != "clipboard-paste"@.len());
    assert("scrollback-down-page"@.len() != "primary-paste"@.len());
    assert("scrollback-down-page"@.len() != "fullscreen"@.len());
    assert("scrollback-down-page"@.len() != "search-start"@.len());
    assert("scrollback-down-page"@.len() != "font-increase"@.len());
    assert("scrollback-down-page"@.len() != "font-decrease"@.len());
    assert("scrollback-down-page"@.len() != "font-reset"@.len());
    assert("scrollback-down-page"@.len() != "scrollback-up-page"@.len());
    assert("scrollback-up-half-page"@.len() != "clipboard-copy"@.len());
    assert("scrollback-up-half-page"@.len() != "clipboard-paste"@.len());
    assert("scrollback-up-half-page"@.len() != "primary-paste"@.len());
    assert("scrollback-up-half-page"@.len() != "fullscreen"@.len());
    assert("scrollback-up-half-page"@.len() != "search-start"@.len());
    assert("scrollback-up-half-page"@.len() != "font-increase"@.len());
    assert("scrollback-up-half-page"@.len() != "font-decrease"@.len());
    assert("scrollback-up-half-page"@.len() != "font-reset"@.len());
    assert("scrollback-up-half-page"@.len() != "scrollback-up-page"@.len());
    assert("scrollback-up-half-page"@.len() != "scrollback-down-page"@.len());
    assert("scrollback-down-half-page"@.len() != "clipboard-copy"@.len());
    assert("scrollback-down-half-page"@.len() != "clipboard-paste"@.len());
    assert("scrollback-down-half-page"@.len() != "primary-paste"@.len());
    assert("scrollback-down-half-page"@.len() != "fullscreen"@.len());
    assert("scrollback-down-half-page"@.len() != "search-start"@.len());
    assert("scrollback-down-half-page"@.len() != "font-increase"@.len());
    assert("scrollback-down-half-page"@.len() != "font-decrease"@.len());
    assert("scrollback-down-half-page"@.len() != "font-reset"@.len());
    assert("scrollback-down-half-page"@.len() != "scrollback-up-page"@.len());
    assert("scrollback-down-half-page"@.len() != "scrollback-down-page"@.len());
    assert("scrollback-down-half-page"@.len() != "scrollback-up-half-page"@.len());
    assert("scrollback-up-line"@.len() != "clipboard-copy"@.len());
    assert("scrollback-up-line"@.len() != "clipboard-paste"@.len());
    assert("scrollback-up-line"@.len() != "primary-paste"@.len());
    assert("scrollback-up-line"@.len() != "fullscreen"@.len());
    assert("scrollback-up-line"@.len() != "search-start"@.len());
    assert("scrollback-up-line"@.len() != "font-increase"@.len());
    assert("scrollback-up-line"@.len() != "font-decrease"@.len());
    assert("scrollback-up-line"@.len() != "font-reset"@.len());
    assert("scrollback-up-line"@[14] != "scrollback-up-page"@[14]);
    assert("scrollback-up-line"@.len() != "scrollback-down-page"@.len());
    assert("scrollback-up-line"@.len() != "scrollback-up-half-page"@.len());
    assert("scrollback-up-line"@.len() != "scrollback-down-half-page"@.len());
    assert("scrollback-down-line"@.len() != "clipboard-copy"@.len());
    assert("scrollback-down-line"@.len() != "clipboard-paste"@.len());
    assert("scrollback-down-line"@.len() != "primary-paste"@.len());
    assert("scrollback-down-line"@.len() != "fullscreen"@.len());
    assert("scrollback-down-line"@.len() != "search-start"@.len());
    assert("scrollback-down-line"@.len() != "font-increase"@.len());
    assert("scrollback-down-line"@.len() != "font-decrease"@.len());
    assert("scrollback-down-line"@.len() != "font-reset"@.len());
    assert("scrollback-down-line"@.len() != "scrollback-up-page"@.len());
    assert("scrollback-down-line"@[16] != "scrollback-down-page"@[16]);
    assert("scrollback-down-line"@.len() != "scrollback-up-half-page"@.len());
    assert("scrollback-down-line"@.len() != "scrollback-down-half-page"@.len());
    assert("scrollback-down-line"@.len() != "scrollback-up-line"@.len());
    assert("spawn-terminal"@[0] != "clipboard-copy"@[0]);
    assert("spawn-terminal"@.len() != "clipboard-paste"@.len());
    assert("spawn-terminal"@.len() != "primary-paste"@.len());
    assert("spawn-terminal"@.len() != "fullscreen"@.len());
    assert("spawn-terminal"@.len() != "search-start"@.len());
    assert("spawn-terminal"@.len() != "font-increase"@.len());
    assert("spawn-terminal"@.len() != "font-decrease"@.len());
    assert("spawn-terminal"@.len() != "font-reset"@.len());
    assert("spawn-terminal"@.len() != "scrollback-up-page"@.len());
    assert("spawn-terminal"@.len() != "scrollback-down-page"@.len());
    assert("spawn-terminal"@.len() != "scrollback-up-half-page"@.len());
    assert("spawn-terminal"@.len() != "scrollback-down-half-page"@.len());
    assert("spawn-terminal"@.len() != "scrollback-up-line"@.len());
    assert("spawn-terminal"@.len() != "scrollback-down-line"@.len());
    assert("scrollback-editor"@.len() != "clipboard-copy"@.len());
    assert("scrollback-editor"@.len() != "clipboard-paste"@.len());
    assert("scrollback-editor"@.len() != "primary-paste"@.len());
    assert("scrollback-editor"@.len() != "fullscreen"@.len());
    assert("scrollback-editor"@.len() != "search-start"@.len());
    assert("scrollback-editor"@.len() != "font-increase"@.len());
    assert("scrollback-editor"@.len() != "font-decrease"@.len());
    assert("scrollback-editor"@.len() != "font-reset"@.len());
    assert("scrollback-editor"@.len() != "scrollback-up-page"@.len());
    assert("scrollback-editor"@.len() != "scrollback-down-page"@.len());
    assert("scrollback-editor"@.len() != "scrollback-up-half-page"@.len());
    assert("scrollback-editor"@.len() != "scrollback-down-half-page"@.len());
    assert("scrollback-editor"@.len() != "scrollback-up-line"@.len());
    assert("scrollback-editor"@.len() != "scrollback-down-line"@.len());
    assert("scrollback-editor"@.len() != "spawn-terminal"@.len());
    assert("noop"@.len() != "clipboard-copy"@.len());
    assert("noop"@.len() != "clipboard-paste"@.len());
    assert("noop"@.len() != "primary-paste"@.len());
    assert("noop"@.len() != "fullscreen"@.len());
    assert("noop"@.len() != "search-start"@.len());
    assert("noop"@.len() != "font-increase"@.len());
    assert("noop"@.len() != "font-decrease"@.len());
    assert("noop"@.len() != "font-reset"@.len());
    assert("noop"@.len() != "scrollback-up-page"@.len());
    assert("noop"@.len() != "scrollback-down-page"@.len());
    assert("noop"@.len() != "scrollback-up-half-page"@.len());
    assert("noop"@.len() != "scrollback-down-half-page"@.len());
    assert("noop"@.len() != "scrollback-up-line"@.len());
    assert("noop"@.len() != "scrollback-down-line"@.len());
    assert("noop"@.len() != "spawn-terminal"@.len());
    assert("noop"@.len() != "scrollback-editor"@.len());
}

/// Parse foot's `[key-bindings]` action name into a `KeyAction`.
pub fn parse_binding_action(name: &str) -> (r: Option<KeyAction>)
    ensures
        r == spec_parse_binding_action(name@),
{
    if str_eq(name, "clipboard-copy") {
        Some(KeyAction::Copy)
    } else if str_eq(name, "clipboard-paste") {
        Some(KeyAction::Paste)
    } else if str_eq(name, "primary-paste") {
        Some(KeyAction::PrimaryPaste)
    } else if str_eq(name, "fullscreen") {
        Some(KeyAction::ToggleFullscreen)
    } else if str_eq(name, "search-start") {
        Some(KeyAction::Search)
    } else if str_eq(name, "font-increase") {
        Some(KeyAction::FontSizeUp)
    } else if str_eq(name, "font-decrease") {
        Some(KeyAction::FontSizeDown)
    } else if str_eq(name, "font-reset") {
        Some(KeyAction::FontSizeReset)
    } else if str_eq(name, "scrollback-up-page") {
        Some(KeyAction::ScrollPageUp)
    } else if str_eq(name, "scrollback-down-page") {
        Some(KeyAction::ScrollPageDown)
    } else if str_eq(name, "scrollback-up-half-page") {
        Some(KeyAction::ScrollHalfPageUp)
    } else if str_eq(name, "scrollback-down-half-page") {
        Some(KeyAction::ScrollHalfPageDown)
    } else if str_eq(name, "scrollback-up-line") {
        Some(KeyAction::ScrollLineUp)
    } else if str_eq(name, "scrollback-down-line") {
        Some(KeyAction::ScrollLineDown)
    } else if str_eq(name, "spawn-terminal") {
        Some(KeyAction::SpawnTerminal)
    } else if str_eq(name, "scrollback-editor") {
        Some(KeyAction::ScrollbackEditor)
    } else if str_eq(name, "noop") {
        Some(KeyAction::Noop)
    } else {
        None
    }
}

/// The keysym of a named key (the name already lowercased).
pub open spec fn spec_named_key(l: Seq<char>) -> Option<u32> {
    if l == "f1"@ {
        Some(KEY_F1)
    } else if l == "f2"@ {
        Some(KEY_F2)
    } else if l == "f3"@ {
        Some(KEY_F3)
    } else if l == "f4"@ {
        Some(KEY_F4)
    } else if l == "f5"@ {
        Some(KEY_F5)
    } else if l == "f6"@ {
        Some(KEY_F6)
    } else if l == "f7"@ {
        Some(KEY_F7)
    } else if l == "f8"@ {
        Some(KEY_F8)
    } else if l == "f9"@ {
        Some(KEY_F9)
    } else if l == "f10"@ {
        Some(KEY_F10)
    } else if l == "f11"@ {
        Some(KEY_F11)
    } else if l == "f12"@ {
        Some(KEY_F12)
    } else if l == "insert"@ {
        Some(KEY_INSERT)
    } else if l == "delete"@ {
        Some(KEY_DELETE)
    } else if l == "home"@ {
        Some(KEY_HOME)
    } else if l == "end"@ {
        Some(KEY_END)
    } else if l == "page_up"@ {
        Some(KEY_PAGE_UP)
    } else if l == "prior"@ {
        Some(KEY_PAGE_UP)
    } else if l == "page_down"@ {
        Some(KEY_PAGE_DOWN)
    } else if l == "next"@ {
        Some(KEY_PAGE_DOWN)
    } else if l == "up"@ {
        Some(KEY_UP)
    } else if l == "down"@ {
        Some(KEY_DOWN)
    } else if l == "left"@ {
        Some(KEY_LEFT)
    } else if l == "right"@ {
        Some(KEY_RIGHT)
    } else if l == "return"@ {
        Some(KEY_RETURN)
    } else if l == "enter"@ {
        Some(KEY_RETURN)
    } else if l == "escape"@ {
        Some(KEY_ESCAPE)
    } else if l == "tab"@ {
        Some(KEY_TAB)
    } else if l == "backspace"@ {
        Some(KEY_BACKSPACE)
    } else if l == "space"@ {
        Some(KEY_SPACE)
    } else if l == "minus"@ {
        Some(KEY_MINUS)
    } else if l == "plus"@ {
        Some(KEY_EQUAL)
    } else if l == "equal"@ {
        Some(KEY_EQUAL)
    } else {
        None
    }
}

fn named_key(l: &[char]) -> (r: Option<u32>)
    ensures
        r == spec_named_key(l@),
{
    if chars_eq_str(l, "f1") {
        Some(KEY_F1)
    } else if chars_eq_str(l, "f2") {
        Some(KEY_F2)
    } else if chars_eq_str(l, "f3") {
        Some(KEY_F3)
    } else if chars_eq_str(l, "f4") {
        Some(KEY_F4)
    } else if chars_eq_str(l, "f5") {
        Some(KEY_F5)
    } else if chars_eq_str(l, "f6") {
        Some(KEY_F6)
    } else if chars_eq_str(l, "f7") {
        Some(KEY_F7)
    } else if chars_eq_str(l, "f8") {
        Some(KEY_F8)
    } else if chars_eq_str(l, "f9") {
        Some(KEY_F9)
    } else if chars_eq_str(l, "f10") {
        Some(KEY_F10)
    } else if chars_eq_str(l, "f11") {
        Some(KEY_F11)
    } else if chars_eq_str(l, "f12") {
        Some(KEY_F12)
    } else if chars_eq_str(l, "insert") {
        Some(KEY_INSERT)
    } else if chars_eq_str(l, "delete") {
        Some(KEY_DELETE)
    } else if chars_eq_str(l, "home") {
        Some(KEY_HOME)
    } else if chars_eq_str(l, "end") {
        Some(KEY_END)
    } else if chars_eq_str(l, "page_up") {
        Some(KEY_PAGE_UP)
    } else if chars_eq_str(l, "prior") {
        Some(KEY_PAGE_UP)
    } else if chars_eq_str(l, "page_down") {
        Some(KEY_PAGE_DOWN)
    } else if chars_eq_str(l, "next") {
        Some(KEY_PAGE_DOWN)
    } else if chars_eq_str(l, "up") {
        Some(KEY_UP)
    } else if chars_eq_str(l, "down") {
        Some(KEY_DOWN)
    } else if chars_eq_str(l, "left") {
        Some(KEY_LEFT)
    } else if chars_eq_str(l, "right") {
        Some(KEY_RIGHT)
    } else if chars_eq_str(l, "return") {
        Some(KEY_RETURN)
    } else if chars_eq_str(l, "enter") {
        Some(KEY_RETURN)
    } else if chars_eq_str(l, "escape") {
        Some(KEY_ESCAPE)
    } else if chars_eq_str(l, "tab") {
        Some(KEY_TAB)
    } else if chars_eq_str(l, "backspace") {
        Some(KEY_BACKSPACE)
    } else if chars_eq_str(l, "space") {
        Some(KEY_SPACE)
    } else if chars_eq_str(l, "minus") {
        Some(KEY_MINUS)
    } else if chars_eq_str(l, "plus") {
        Some(KEY_EQUAL)
    } else if chars_eq_str(l, "equal") {
        Some(KEY_EQUAL)
    } else {
        None
    }
}

/// The keysym of a foot-style key name: a single ASCII character stands for
/// itself (uppercase letters as their lowercase keysym); otherwise a named
/// key, matched case-insensitively.
pub open spec fn spec_binding_key_to_keysym(name: Seq<char>) -> Option<u32> {
    if name.len() == 1 && (name[0] as u32) < 0x80 {
        let c = name[0] as u32;
        Some(if 0x41 <= c <= 0x5a { (c + 0x20) as u32 } else { c })
    } else {
        spec_named_key(unicode_lowercase(name))
    }
}

/// Map a foot-style key name to an XKB keysym value.
pub fn binding_key_to_keysym(name: &str) -> (r: Option<u32>)
    ensures
        r == spec_binding_key_to_keysym(name@),
        is_ascii_seq(name@) && name@.len() != 1 ==> r == spec_named_key(ascii_lowercase(name@)),
{
    let v = str_chars(name);
    // Single ASCII character
    if v.len() == 1 && (v[0] as u32) < 0x80 {
        let c = v[0] as u32;
        // Uppercase → lowercase keysym
        if 0x41 <= c && c <= 0x5a {
            return Some(c + 0x20);
        }
        // Lowercase letter, digit, or symbol
        return Some(c);
    }
    // Named keys
    let lower = str_to_lowercase(name);
    let lv = str_chars(lower.as_str());
    named_key(lv.as_slice())
}

/// A modifier piece of a key combo names Control.
pub open spec fn names_ctrl(piece: Seq<char>) -> bool {
    unicode_lowercase(spec_trim(piece)) == "control"@ || unicode_lowercase(spec_trim(piece)) == "ctrl"@
}

/// A modifier piece of a key combo names Shift.
pub open spec fn names_shift(piece: Seq<char>) -> bool {
    unicode_lowercase(spec_trim(piece)) == "shift"@
}

/// The binding that a foot-style combo such as `Control+Shift+c` denotes:
/// every `+`-separated piece but the last is a modifier (unknown ones are
/// ignored), the last names the key.
pub open spec fn spec_parse_binding_combo(combo: Seq<char>) -> Option<BindingKey> {
    let p = spec_split(combo, '+');
    match spec_binding_key_to_keysym(spec_trim(p.last())) {
        Some(k) => Some(BindingKey {
            keysym: k,
            ctrl: exists|j: int| 0 <= j < p.len() - 1 && #[trigger] names_ctrl(p[j]),
            shift: exists|j: int| 0 <= j < p.len() - 1 && #[trigger] names_shift(p[j]),
        }),
        None => None,
    }
}

/// The trimmed, lowercased text of `v[lo..hi]` (`v` being the characters of
/// `s`).
fn modifier_name(s: &str, v: &[char], lo: usize, hi: usize) -> (r: Vec<char>)
    requires
        v@ == s@,
        lo <= hi <= v@.len(),
    ensures
        r@ == unicode_lowercase(spec_trim(v@.subrange(lo as int, hi as int))),
{
    let (a, b) = trim_bounds(v, lo, hi);
    assert(v@.subrange(lo as int, hi as int).subrange(a - lo, b - lo) =~= s@.subrange(a as int, b as int));
    let piece = str_slice(s, a, b);
    let lower = str_to_lowercase(piece);
    str_chars(lower.as_str())
}

proof fn lemma_split_step(s: Seq<char>, sep: char, i: int, k: int)
    requires
        0 <= i <= s.len(),
        find_char(s, sep, i) == Some(k),
    ensures
        split_from(s, sep, i) == seq![s.subrange(i, k)] + split_from(s, sep, k + 1),
        i <= k < s.len(),
{
    crate::text::lemma_find_char_range(s, sep, i);
}

/// Parse a foot-style key combo like `Control+Shift+c` into a `BindingKey`.
///
/// Supported modifier names: `Control`, `Shift` (case-insensitive).
/// The last `+`-separated token is the key name, mapped to an XKB keysym.
pub fn parse_binding_combo(combo: &str) -> (r: Option<BindingKey>)
    ensures
        r == spec_parse_binding_combo(combo@),
{
    let v = str_chars(combo);
    let n = v.len();
    let ghost s = combo@;
    let ghost mut done: Seq<Seq<char>> = Seq::empty();
    let mut ctrl = false;
    let mut shift = false;
    let mut start: usize = 0;
    proof {
        reveal_strlit("control");
        reveal_strlit("ctrl");
        reveal_strlit("shift");
    }
    loop
        invariant
            v@ == s,
            s == combo@,
            n == v@.len(),
            0 <= start <= n,
            spec_split(s, '+') == done + split_from(s, '+', start as int),
            ctrl == exists|j: int| 0 <= j < done.len() && #[trigger] names_ctrl(done[j]),
            shift == exists|j: int| 0 <= j < done.len() && #[trigger] names_shift(done[j]),
        decreases n - start,
    {
        match find_char_exec(v.as_slice(), '+', start) {
            Some(k) => {
                proof {
                    lemma_split_step(s, '+', start as int, k as int);
                }
                let name = modifier_name(combo, v.as_slice(), start, k);
                let is_ctrl = chars_eq_str(name.as_slice(), "control") || chars_eq_str(name.as_slice(), "ctrl");
                let is_shift = chars_eq_str(name.as_slice(), "shift");
                let ghost piece = s.subrange(start as int, k as int);
                proof {
                    let nd = done.push(piece);
                    assert(done + split_from(s, '+', start as int) =~= nd + split_from(s, '+', k + 1));
                    assert(is_ctrl == names_ctrl(piece));
                    assert(is_shift == names_shift(piece));
                    assert((ctrl || is_ctrl) == exists|j: int| 0 <= j < nd.len() && #[trigger] names_ctrl(nd[j])) by {
                        if is_ctrl {
                            assert(names_ctrl(nd[done.len() as int]));
                        }
                        if ctrl {
                            let j = choose|j: int| 0 <= j < done.len() && #[trigger] names_ctrl(done[j]);
                            assert(names_ctrl(nd[j]));
                        }
                        if exists|j: int| 0 <= j < nd.len() && #[trigger] names_ctrl(nd[j]) {
                            let j = choose|j: int| 0 <= j < nd.len() && #[trigger] names_ctrl(nd[j]);
                            if j < done.len() {
                                assert(names_ctrl(done[j]));
                            }
                        }
                    }
                    assert((shift || is_shift) == exists|j: int| 0 <= j < nd.len() && #[trigger] names_shift(nd[j])) by {
                        if is_shift {
                            assert(names_shift(nd[done.len() as int]));
                        }
                        if shift {
                            let j = choose|j: int| 0 <= j < done.len() && #[trigger] names_shift(done[j]);
                            assert(names_shift(nd[j]));
                        }
                        if exists|j: int| 0 <= j < nd.len() && #[trigger] names_shift(nd[j]) {
                            let j = choose|j: int| 0 <= j < nd.len() && #[trigger] names_shift(nd[j]);
                            if j < done.len() {
                                assert(names_shift(done[j]));
                            }
                        }
                    }
                    done = nd;
                }
                ctrl = ctrl || is_ctrl;
                shift = shift || is_shift;
                start = k + 1;
            },
            None => {
                let ghost last = s.subrange(start as int, n as int);
                assert(split_from(s, '+', start as int) == seq![last]);
                let ghost p = spec_split(s, '+');
                assert(p =~= done.push(last));
                assert(p.last() == last);
                let (a, b) = trim_bounds(v.as_slice(), start, n);
                assert(v@.subrange(start as int, n as int).subrange(a - start, b - start) =~= s.subrange(a as int, b as int));
                let key_name = str_slice(combo, a, b);
                let keysym = binding_key_to_keysym(key_name);
                assert forall|j: int| 0 <= j < p.len() - 1 implies p[j] == done[j] by {}
                return match keysym {
                    Some(k) => Some(BindingKey { keysym: k, ctrl, shift }),
                    None => None,
                };
            },
        }
    }
}

/// The bindings after applying the `[key-bindings]` entry
/// `action_name=combo`: unknown actions are ignored, `none` unbinds the
/// action, a valid combo binds it, an invalid one changes nothing.
pub open spec fn spec_apply_key_binding(
    entries: Seq<(BindingKey, KeyAction)>,
    action_name: Seq<char>,
    combo: Seq<char>,
) -> Seq<(BindingKey, KeyAction)> {
    match spec_parse_binding_action(action_name) {
        None => entries,
        Some(action) => if spec_eq_ignore_ascii_case(combo, "none"@) {
            spec_unbind(entries, action)
        } else {
            match spec_parse_binding_combo(combo) {
                Some(bk) => spec_set(entries, action, bk),
                None => entries,
            }
        },
    }
}

/// Apply a `[key-bindings]` entry: `action-name=modifier+key` or `none` to unbind.
pub fn apply_key_binding(bindings: &mut Bindings, action_name: &str, combo: &str)
    ensures
        final(bindings)@ == spec_apply_key_binding(old(bindings)@, action_name@, combo@),
{
    let action = match parse_binding_action(action_name) {
        Some(a) => a,
        None => return,
    };
    if eq_ignore_ascii_case(combo, "none") {
        bindings.unbind_action(action);
        return;
    }
    if let Some(bk) = parse_binding_combo(combo) {
        bindings.set(action, bk);
    }
}

} // verus!
