//! The settings of foot.ini that hold no floating-point value, and the
//! rules by which each `key=value` line changes them.
//!
//! Font size, line height, letter spacing, scroll multiplier and opacity
//! are floating-point settings: the keys that set them are recognised here
//! and left unchanged, for the caller to apply.

use vstd::prelude::*;
use vstd::multiset::Multiset;
use super::bindings::{apply_key_binding, spec_apply_key_binding, BindingKey, Bindings, KeyAction};
use super::colors::{
    parse_foot_cursor_color, parse_hex_color, parse_palette_key, spec_parse_foot_cursor_color,
    spec_parse_hex_color, spec_parse_palette_key, Color,
};
use super::terminal_cfg::TerminalConfig;
use super::types::{SelectionTarget, WindowMode};
use super::window::WindowConfig;
use super::{parse_foot_font_family, parse_size_u32, spec_parse_foot_font_family, spec_parse_size_u32};
use crate::text::{
    chars_eq_str, find_char, find_char_exec, parse_u64, spec_decimal, str_chars, starts_with,
    spec_is_unicode_whitespace, is_unicode_whitespace,
};

verus! {

/// Colour settings (the background opacity, a float, is kept by the caller).
pub struct ColorSettings {
    pub foreground: Option<Color>,
    pub background: Option<Color>,
    pub cursor: Option<Color>,
    pub selection_fg: Option<Color>,
    pub selection_bg: Option<Color>,
    /// ANSI palette overrides (indices 0-15).
    pub palette: [Option<Color>; 16],
    /// Dimmed palette overrides (indices 0-7).
    pub dim_palette: [Option<Color>; 8],
}

/// Input settings (the scroll multiplier, a float, is kept by the caller).
pub struct InputSettings {
    /// Word delimiter characters for double-click word selection.
    pub word_delimiters: Option<String>,
    pub selection_target: SelectionTarget,
    pub bold_is_bright: bool,
    pub hide_when_typing: bool,
    pub alternate_scroll_mode: bool,
}

/// Font family names (the sizes and spacings, floats, are kept by the caller).
pub struct FontFamilies {
    pub family: Option<String>,
    pub bold: Option<String>,
    pub italic: Option<String>,
    pub bold_italic: Option<String>,
}

/// Every setting of foot.ini that holds no float.
pub struct Settings {
    pub font: FontFamilies,
    pub colors: ColorSettings,
    pub window: WindowConfig,
    pub terminal: TerminalConfig,
    pub input: InputSettings,
    pub bindings: Bindings,
}

/// The settings as plain values.
#[verifier::ext_equal]
pub struct SettingsView {
    pub family: Option<Seq<char>>,
    pub font_bold: Option<Seq<char>>,
    pub font_italic: Option<Seq<char>>,
    pub font_bold_italic: Option<Seq<char>>,
    pub foreground: Option<Color>,
    pub background: Option<Color>,
    pub cursor: Option<Color>,
    pub selection_fg: Option<Color>,
    pub selection_bg: Option<Color>,
    pub palette: Seq<Option<Color>>,
    pub dim_palette: Seq<Option<Color>>,
    pub title: Seq<char>,
    pub app_id: Seq<char>,
    pub initial_cols: u16,
    pub initial_rows: u16,
    pub initial_window_mode: WindowMode,
    pub initial_size_pixels: Option<(u32, u32)>,
    pub initial_size_chars: Option<(u16, u16)>,
    pub padding: u32,
    pub resize_delay_ms: u32,
    pub locked_title: bool,
    pub hold: bool,
    pub scrollback: usize,
    pub shell: Option<Seq<char>>,
    pub term: Option<Seq<char>>,
    pub working_directory: Option<std::path::PathBuf>,
    pub cursor_blink_interval_ms: u64,
    pub notify_command: Option<Seq<char>>,
    pub cursor_blink: bool,
    pub login_shell: bool,
    pub word_delimiters: Option<Seq<char>>,
    pub selection_target: SelectionTarget,
    pub bold_is_bright: bool,
    pub hide_when_typing: bool,
    pub alternate_scroll_mode: bool,
    pub bindings: Seq<(BindingKey, KeyAction)>,
}

/// The characters of an optional string.
pub open spec fn opt_str(o: Option<String>) -> Option<Seq<char>> {
    match o {
        Some(s) => Some(s@),
        None => None,
    }
}

impl View for Settings {
    type V = SettingsView;

    open spec fn view(&self) -> SettingsView {
        SettingsView {
            family: opt_str(self.font.family),
            font_bold: opt_str(self.font.bold),
            font_italic: opt_str(self.font.italic),
            font_bold_italic: opt_str(self.font.bold_italic),
            foreground: self.colors.foreground,
            background: self.colors.background,
            cursor: self.colors.cursor,
            selection_fg: self.colors.selection_fg,
            selection_bg: self.colors.selection_bg,
            palette: self.colors.palette@,
            dim_palette: self.colors.dim_palette@,
            title: self.window.title@,
            app_id: self.window.app_id@,
            initial_cols: self.window.initial_cols,
            initial_rows: self.window.initial_rows,
            initial_window_mode: self.window.initial_window_mode,
            initial_size_pixels: self.window.initial_size_pixels,
            initial_size_chars: self.window.initial_size_chars,
            padding: self.window.padding,
            resize_delay_ms: self.window.resize_delay_ms,
            locked_title: self.window.locked_title,
            hold: self.window.hold,
            scrollback: self.terminal.scrollback,
            shell: opt_str(self.terminal.shell),
            term: opt_str(self.terminal.term),
            working_directory: self.terminal.working_directory,
            cursor_blink_interval_ms: self.terminal.cursor_blink_interval_ms,
            notify_command: opt_str(self.terminal.notify_command),
            cursor_blink: self.terminal.cursor_blink,
            login_shell: self.terminal.login_shell,
            word_delimiters: opt_str(self.input.word_delimiters),
            selection_target: self.input.selection_target,
            bold_is_bright: self.input.bold_is_bright,
            hide_when_typing: self.input.hide_when_typing,
            alternate_scroll_mode: self.input.alternate_scroll_mode,
            bindings: self.bindings@,
        }
    }
}

/// The default settings, as plain values.
pub open spec fn spec_default_settings() -> SettingsView {
    SettingsView {
        family: None,
        font_bold: None,
        font_italic: None,
        font_bold_italic: None,
        foreground: None,
        background: None,
        cursor: None,
        selection_fg: None,
        selection_bg: None,
        palette: Seq::new(16, |i: int| None),
        dim_palette: Seq::new(8, |i: int| None),
        title: "hs"@,
        app_id: "hs"@,
        initial_cols: 0,
        initial_rows: 0,
        initial_window_mode: WindowMode::Windowed,
        initial_size_pixels: None,
        initial_size_chars: None,
        padding: 0,
        resize_delay_ms: 100,
        locked_title: false,
        hold: false,
        scrollback: 10000,
        shell: None,
        term: None,
        working_directory: None,
        cursor_blink_interval_ms: 500,
        notify_command: None,
        cursor_blink: true,
        login_shell: false,
        word_delimiters: None,
        selection_target: SelectionTarget::Primary,
        bold_is_bright: false,
        hide_when_typing: false,
        alternate_scroll_mode: true,
        bindings: super::bindings::spec_default_bindings(),
    }
}

impl Default for Settings {
    fn default() -> (s: Self)
        ensures
            s@ == spec_default_settings(),
    {
        let s = Settings {
            font: FontFamilies { family: None, bold: None, italic: None, bold_italic: None },
            colors: ColorSettings {
                foreground: None,
                background: None,
                cursor: None,
                selection_fg: None,
                selection_bg: None,
                palette: [None; 16],
                dim_palette: [None; 8],
            },
            window: WindowConfig::default(),
            terminal: TerminalConfig::default(),
            input: InputSettings {
                word_delimiters: None,
                selection_target: SelectionTarget::default(),
                bold_is_bright: false,
                hide_when_typing: false,
                alternate_scroll_mode: true,
            },
            bindings: Bindings::default(),
        };
        assert(s@.palette =~= Seq::new(16, |i: int| None::<Color>));
        assert(s@.dim_palette =~= Seq::new(8, |i: int| None::<Color>));
        assert(s@ =~= spec_default_settings());
        s
    }
}

/// `true`, `yes` or `1`.
pub open spec fn truthy(v: Seq<char>) -> bool {
    v == "true"@ || v == "yes"@ || v == "1"@
}

fn is_truthy(v: &[char]) -> (r: bool)
    ensures
        r == truthy(v@),
{
    chars_eq_str(v, "true") || chars_eq_str(v, "yes") || chars_eq_str(v, "1")
}

/// The number `v` spells if it is at most `max` (how Rust parses an
/// unsigned integer of that width).
pub open spec fn spec_uint(v: Seq<char>, max: nat) -> Option<nat> {
    match spec_decimal(v) {
        Some(n) => if n <= max { Some(n) } else { None },
        None => None,
    }
}

fn parse_uint(v: &[char], max: u64) -> (r: Option<u64>)
    ensures
        r matches Some(n) ==> spec_uint(v@, max as nat) == Some(n as nat),
        r is None ==> spec_uint(v@, max as nat) is None,
{
    assert(v@.subrange(0, v@.len() as int) =~= v@);
    match parse_u64(v, 0, v.len()) {
        Some(n) => if n <= max { Some(n) } else { None },
        None => None,
    }
}

/// `value` as an owned string.
fn owned(value: &str) -> (r: String)
    ensures
        r@ == value@,
{
    value.to_owned()
}

} // verus!

verus! {

/// `n` clamped to `lo ..= hi`.
pub open spec fn clamp_nat(n: nat, lo: nat, hi: nat) -> nat {
    if n < lo { lo } else if n > hi { hi } else { n }
}

/// The core keys: font, shell, scrollback, grid size, cursor blink,
/// titles, TERM and login shell.
#[derive(Clone, Copy, PartialEq, Eq, Structural)]
pub enum CoreKey {
    FontSize,
    Font,
    Scrollback,
    Shell,
    Cols,
    Rows,
    CursorBlink,
    CursorBlinkInterval,
    BoldIsBright,
    Title,
    AppId,
    Term,
    LoginShell,
    LockedTitle,
}

/// The core key that `key` names, with its aliases.
pub open spec fn spec_core_key(key: Seq<char>) -> Option<CoreKey> {
    if key == "font-size"@ || key == "font_size"@ {
        Some(CoreKey::FontSize)
    } else if key == "font"@ {
        Some(CoreKey::Font)
    } else if key == "scrollback"@ || key == "lines"@ {
        Some(CoreKey::Scrollback)
    } else if key == "shell"@ {
        Some(CoreKey::Shell)
    } else if key == "cols"@ || key == "columns"@ {
        Some(CoreKey::Cols)
    } else if key == "rows"@ {
        Some(CoreKey::Rows)
    } else if key == "cursor-blink"@ || key == "cursor_blink"@ {
        Some(CoreKey::CursorBlink)
    } else if key == "cursor-blink-interval"@ || key == "cursor_blink_interval"@ {
        Some(CoreKey::CursorBlinkInterval)
    } else if key == "bold-is-bright"@ || key == "bold_is_bright"@ || key == "bold-text-in-bright"@
        || key == "bold_text_in_bright"@ {
        Some(CoreKey::BoldIsBright)
    } else if key == "title"@ || key == "window-title"@ || key == "window_title"@ {
        Some(CoreKey::Title)
    } else if key == "app-id"@ || key == "app_id"@ {
        Some(CoreKey::AppId)
    } else if key == "term"@ || key == "term-program"@ || key == "term_program"@ {
        Some(CoreKey::Term)
    } else if key == "login-shell"@ || key == "login_shell"@ {
        Some(CoreKey::LoginShell)
    } else if key == "locked-title"@ || key == "locked_title"@ {
        Some(CoreKey::LockedTitle)
    } else {
        None
    }
}

fn core_key(k: &[char]) -> (r: Option<CoreKey>)
    ensures
        r == spec_core_key(k@),
{
    if chars_eq_str(k, "font-size") || chars_eq_str(k, "font_size") {
        Some(CoreKey::FontSize)
    } else if chars_eq_str(k, "font") {
        Some(CoreKey::Font)
    } else if chars_eq_str(k, "scrollback") || chars_eq_str(k, "lines") {
        Some(CoreKey::Scrollback)
    } else if chars_eq_str(k, "shell") {
        Some(CoreKey::Shell)
    } else if chars_eq_str(k, "cols") || chars_eq_str(k, "columns") {
        Some(CoreKey::Cols)
    } else if chars_eq_str(k, "rows") {
        Some(CoreKey::Rows)
    } else if chars_eq_str(k, "cursor-blink") || chars_eq_str(k, "cursor_blink") {
        Some(CoreKey::CursorBlink)
    } else if chars_eq_str(k, "cursor-blink-interval") || chars_eq_str(k, "cursor_blink_interval") {
        Some(CoreKey::CursorBlinkInterval)
    } else if chars_eq_str(k, "bold-is-bright") || chars_eq_str(k, "bold_is_bright") || chars_eq_str(
        k,
        "bold-text-in-bright",
    ) || chars_eq_str(k, "bold_text_in_bright") {
        Some(CoreKey::BoldIsBright)
    } else if chars_eq_str(k, "title") || chars_eq_str(k, "window-title") || chars_eq_str(k, "window_title") {
        Some(CoreKey::Title)
    } else if chars_eq_str(k, "app-id") || chars_eq_str(k, "app_id") {
        Some(CoreKey::AppId)
    } else if chars_eq_str(k, "term") || chars_eq_str(k, "term-program") || chars_eq_str(k, "term_program") {
        Some(CoreKey::Term)
    } else if chars_eq_str(k, "login-shell") || chars_eq_str(k, "login_shell") {
        Some(CoreKey::LoginShell)
    } else if chars_eq_str(k, "locked-title") || chars_eq_str(k, "locked_title") {
        Some(CoreKey::LockedTitle)
    } else {
        None
    }
}

/// The settings after core key `ck` is set to `v`. `font-size` and the
/// size part of `font` are floats, left to the caller; empty strings leave
/// string settings alone; numbers that do not parse leave numbers alone.
pub open spec fn spec_apply_core_key(c: SettingsView, ck: CoreKey, v: Seq<char>) -> SettingsView {
    match ck {
        CoreKey::FontSize => c,
        CoreKey::Font => match spec_parse_foot_font_family(v) {
            Some(f) => SettingsView { family: Some(f), ..c },
            None => c,
        },
        CoreKey::Scrollback => match spec_uint(v, usize::MAX as nat) {
            Some(n) => SettingsView { scrollback: n as usize, ..c },
            None => c,
        },
        CoreKey::Shell => if v.len() > 0 { SettingsView { shell: Some(v), ..c } } else { c },
        CoreKey::Cols => match spec_uint(v, u16::MAX as nat) {
            Some(n) => SettingsView { initial_cols: n as u16, ..c },
            None => c,
        },
        CoreKey::Rows => match spec_uint(v, u16::MAX as nat) {
            Some(n) => SettingsView { initial_rows: n as u16, ..c },
            None => c,
        },
        CoreKey::CursorBlink => SettingsView { cursor_blink: truthy(v), ..c },
        CoreKey::CursorBlinkInterval => match spec_uint(v, u64::MAX as nat) {
            Some(n) => SettingsView { cursor_blink_interval_ms: clamp_nat(n, 100, 2000) as u64, ..c },
            None => c,
        },
        CoreKey::BoldIsBright => SettingsView { bold_is_bright: truthy(v), ..c },
        CoreKey::Title => if v.len() > 0 { SettingsView { title: v, ..c } } else { c },
        CoreKey::AppId => if v.len() > 0 { SettingsView { app_id: v, ..c } } else { c },
        CoreKey::Term => if v.len() > 0 { SettingsView { term: Some(v), ..c } } else { c },
        CoreKey::LoginShell => SettingsView { login_shell: v == "yes"@ || v == "true"@, ..c },
        CoreKey::LockedTitle => SettingsView { locked_title: truthy(v), ..c },
    }
}

fn apply_core_key(cfg: &mut Settings, ck: CoreKey, value: &str)
    ensures
        final(cfg)@ == spec_apply_core_key(old(cfg)@, ck, value@),
{
    let vv = str_chars(value);
    let v = vv.as_slice();
    match ck {
        CoreKey::FontSize => {},
        CoreKey::Font => {
            if let Some(family) = parse_foot_font_family(value) {
                cfg.font.family = Some(family);
            }
        },
        CoreKey::Scrollback => {
            if let Some(n) = parse_uint(v, usize::MAX as u64) {
                cfg.terminal.scrollback = n as usize;
            }
        },
        CoreKey::Shell => {
            if v.len() > 0 {
                cfg.terminal.shell = Some(owned(value));
            }
        },
        CoreKey::Cols => {
            if let Some(n) = parse_uint(v, 0xffff) {
                cfg.window.initial_cols = n as u16;
            }
        },
        CoreKey::Rows => {
            if let Some(n) = parse_uint(v, 0xffff) {
                cfg.window.initial_rows = n as u16;
            }
        },
        CoreKey::CursorBlink => {
            cfg.terminal.cursor_blink = is_truthy(v);
        },
        CoreKey::CursorBlinkInterval => {
            if let Some(n) = parse_uint(v, u64::MAX) {
                cfg.terminal.cursor_blink_interval_ms = if n < 100 { 100 } else if n > 2000 { 2000 } else { n };
            }
        },
        CoreKey::BoldIsBright => {
            cfg.input.bold_is_bright = is_truthy(v);
        },
        CoreKey::Title => {
            if v.len() > 0 {
                cfg.window.title = owned(value);
            }
        },
        CoreKey::AppId => {
            if v.len() > 0 {
                cfg.window.app_id = owned(value);
            }
        },
        CoreKey::Term => {
            if v.len() > 0 {
                cfg.terminal.term = Some(owned(value));
            }
        },
        CoreKey::LoginShell => {
            cfg.terminal.login_shell = chars_eq_str(v, "yes") || chars_eq_str(v, "true");
        },
        CoreKey::LockedTitle => {
            cfg.window.locked_title = is_truthy(v);
        },
    }
    assert(cfg@ =~= spec_apply_core_key(old(cfg)@, ck, value@));
}

/// The settings after a core key, or `None` when `key` is not one.
pub open spec fn spec_apply_core(c: SettingsView, key: Seq<char>, v: Seq<char>) -> Option<SettingsView> {
    match spec_core_key(key) {
        Some(ck) => Some(spec_apply_core_key(c, ck, v)),
        None => None,
    }
}

/// Apply a core setting. Returns whether `key` is a core key.
pub fn apply_core(cfg: &mut Settings, key: &str, value: &str) -> (handled: bool)
    ensures
        handled == spec_apply_core(old(cfg)@, key@, value@) is Some,
        handled ==> final(cfg)@ == spec_apply_core(old(cfg)@, key@, value@)->0,
        !handled ==> final(cfg)@ == old(cfg)@,
{
    let k = str_chars(key);
    match core_key(k.as_slice()) {
        Some(ck) => {
            apply_core_key(cfg, ck, value);
            true
        },
        None => false,
    }
}

} // verus!

verus! {

/// The keys of window behaviour: selection, delimiters, notifications,
/// resize delay, initial size and mode, hiding the pointer, alternate
/// scroll; and the foot keys that are accepted without effect.
#[derive(Clone, Copy, PartialEq, Eq, Structural)]
pub enum WindowKey {
    SelectionTarget,
    WordDelimiters,
    Notify,
    ResizeDelay,
    SizePixels,
    SizeChars,
    Mode,
    HideWhenTyping,
    AlternateScroll,
    Ignored,
}

/// foot keys that are accepted but have no effect here.
pub open spec fn window_ignored_key(key: Seq<char>) -> bool {
    key == "dpi-aware"@
        || key == "dpi_aware"@
        || key == "workers"@
        || key == "horizontal-letter-offset"@
        || key == "vertical-letter-offset"@
        || key == "underline-offset"@
        || key == "underline_offset"@
        || key == "box-drawings-uses-font-glyphs"@
        || key == "urgent"@
        || key == "command"@
        || key == "command-focused"@
        || key == "notify-focus-inhibit"@
        || key == "indicator-position"@
        || key == "indicator-format"@
        || key == "launch"@
        || key == "label-letters"@
        || key == "osc8-underline"@
        || key == "protocols"@
        || key == "uri-characters"@
        || key == "style"@
        || key == "color"@
        || key == "blink"@
        || key == "beam-thickness"@
        || key == "underline-thickness"@
        || key == "preferred"@
        || key == "size"@
        || key == "hide-when-maximized"@
        || key == "border-width"@
        || key == "border-color"@
        || key == "button-width"@
        || key == "button-color"@
        || key == "button-minimize-color"@
        || key == "button-maximize-color"@
        || key == "button-close-color"@
        || key == "bind"@
        || key == "keybind"@
        || key == "keybinding"@
}

fn is_window_ignored_key(k: &[char]) -> (r: bool)
    ensures
        r == window_ignored_key(k@),
{
    chars_eq_str(k, "dpi-aware")
        || chars_eq_str(k, "dpi_aware")
        || chars_eq_str(k, "workers")
        || chars_eq_str(k, "horizontal-letter-offset")
        || chars_eq_str(k, "vertical-letter-offset")
        || chars_eq_str(k, "underline-offset")
        || chars_eq_str(k, "underline_offset")
        || chars_eq_str(k, "box-drawings-uses-font-glyphs")
        || chars_eq_str(k, "urgent")
        || chars_eq_str(k, "command")
        || chars_eq_str(k, "command-focused")
        || chars_eq_str(k, "notify-focus-inhibit")
        || chars_eq_str(k, "indicator-position")
        || chars_eq_str(k, "indicator-format")
        || chars_eq_str(k, "launch")
        || chars_eq_str(k, "label-letters")
        || chars_eq_str(k, "osc8-underline")
        || chars_eq_str(k, "protocols")
        || chars_eq_str(k, "uri-characters")
        || chars_eq_str(k, "style")
        || chars_eq_str(k, "color")
        || chars_eq_str(k, "blink")
        || chars_eq_str(k, "beam-thickness")
        || chars_eq_str(k, "underline-thickness")
        || chars_eq_str(k, "preferred")
        || chars_eq_str(k, "size")
        || chars_eq_str(k, "hide-when-maximized")
        || chars_eq_str(k, "border-width")
        || chars_eq_str(k, "border-color")
        || chars_eq_str(k, "button-width")
        || chars_eq_str(k, "button-color")
        || chars_eq_str(k, "button-minimize-color")
        || chars_eq_str(k, "button-maximize-color")
        || chars_eq_str(k, "button-close-color")
        || chars_eq_str(k, "bind")
        || chars_eq_str(k, "keybind")
        || chars_eq_str(k, "keybinding")
}

/// The window key that `key` names, with its aliases.
pub open spec fn spec_window_key(key: Seq<char>) -> Option<WindowKey> {
    if key == "selection-target"@ || key == "selection_target"@ {
        Some(WindowKey::SelectionTarget)
    } else if key == "word-delimiters"@ || key == "word_delimiters"@ {
        Some(WindowKey::WordDelimiters)
    } else if key == "notify"@ {
        Some(WindowKey::Notify)
    } else if key == "resize-delay-ms"@ || key == "resize_delay_ms"@ {
        Some(WindowKey::ResizeDelay)
    } else if key == "initial-window-size-pixels"@ {
        Some(WindowKey::SizePixels)
    } else if key == "initial-window-size-chars"@ {
        Some(WindowKey::SizeChars)
    } else if key == "initial-window-mode"@ {
        Some(WindowKey::Mode)
    } else if key == "hide-when-typing"@ || key == "hide_when_typing"@ {
        Some(WindowKey::HideWhenTyping)
    } else if key == "alternate-scroll-mode"@ || key == "alternate_scroll_mode"@ {
        Some(WindowKey::AlternateScroll)
    } else if window_ignored_key(key) {
        Some(WindowKey::Ignored)
    } else {
        None
    }
}

fn window_key(k: &[char]) -> (r: Option<WindowKey>)
    ensures
        r == spec_window_key(k@),
{
    if chars_eq_str(k, "selection-target") || chars_eq_str(k, "selection_target") {
        Some(WindowKey::SelectionTarget)
    } else if chars_eq_str(k, "word-delimiters") || chars_eq_str(k, "word_delimiters") {
        Some(WindowKey::WordDelimiters)
    } else if chars_eq_str(k, "notify") {
        Some(WindowKey::Notify)
    } else if chars_eq_str(k, "resize-delay-ms") || chars_eq_str(k, "resize_delay_ms") {
        Some(WindowKey::ResizeDelay)
    } else if chars_eq_str(k, "initial-window-size-pixels") {
        Some(WindowKey::SizePixels)
    } else if chars_eq_str(k, "initial-window-size-chars") {
        Some(WindowKey::SizeChars)
    } else if chars_eq_str(k, "initial-window-mode") {
        Some(WindowKey::Mode)
    } else if chars_eq_str(k, "hide-when-typing") || chars_eq_str(k, "hide_when_typing") {
        Some(WindowKey::HideWhenTyping)
    } else if chars_eq_str(k, "alternate-scroll-mode") || chars_eq_str(k, "alternate_scroll_mode") {
        Some(WindowKey::AlternateScroll)
    } else if is_window_ignored_key(k) {
        Some(WindowKey::Ignored)
    } else {
        None
    }
}

/// The selection target a value names; anything else means primary.
pub open spec fn spec_selection_target(v: Seq<char>) -> SelectionTarget {
    if v == "none"@ {
        SelectionTarget::Neither
    } else if v == "clipboard"@ {
        SelectionTarget::Clipboard
    } else if v == "both"@ {
        SelectionTarget::Both
    } else {
        SelectionTarget::Primary
    }
}

/// The window mode a value names; anything else means windowed.
pub open spec fn spec_window_mode(v: Seq<char>) -> WindowMode {
    if v == "maximized"@ {
        WindowMode::Maximized
    } else if v == "fullscreen"@ {
        WindowMode::Fullscreen
    } else {
        WindowMode::Windowed
    }
}

/// `n` as `u16`, saturating at `u16::MAX`.
pub open spec fn sat_u16(n: u32) -> u16 {
    if n <= u16::MAX { n as u16 } else { u16::MAX }
}

/// The settings after window key `wk` is set to `v`.
pub open spec fn spec_apply_window_key(c: SettingsView, wk: WindowKey, v: Seq<char>) -> SettingsView {
    match wk {
        WindowKey::SelectionTarget => SettingsView { selection_target: spec_selection_target(v), ..c },
        WindowKey::WordDelimiters => if v.len() > 0 { SettingsView { word_delimiters: Some(v), ..c } } else { c },
        WindowKey::Notify => if v.len() > 0 { SettingsView { notify_command: Some(v), ..c } } else { c },
        WindowKey::ResizeDelay => match spec_uint(v, u32::MAX as nat) {
            Some(n) => SettingsView { resize_delay_ms: (if n < 1000 { n } else { 1000 }) as u32, ..c },
            None => c,
        },
        WindowKey::SizePixels => match spec_parse_size_u32(v) {
            Some(sz) => SettingsView { initial_size_pixels: Some(sz), ..c },
            None => c,
        },
        WindowKey::SizeChars => match spec_parse_size_u32(v) {
            Some((w, h)) => SettingsView { initial_size_chars: Some((sat_u16(w), sat_u16(h))), ..c },
            None => c,
        },
        WindowKey::Mode => SettingsView { initial_window_mode: spec_window_mode(v), ..c },
        WindowKey::HideWhenTyping => SettingsView { hide_when_typing: truthy(v), ..c },
        WindowKey::AlternateScroll => SettingsView { alternate_scroll_mode: truthy(v), ..c },
        WindowKey::Ignored => c,
    }
}

fn u16_saturating(n: u32) -> (r: u16)
    ensures
        r == sat_u16(n),
{
    if n <= 0xffff { n as u16 } else { 0xffff }
}

fn apply_window_key(cfg: &mut Settings, wk: WindowKey, value: &str)
    ensures
        final(cfg)@ == spec_apply_window_key(old(cfg)@, wk, value@),
{
    let vv = str_chars(value);
    let v = vv.as_slice();
    match wk {
        WindowKey::SelectionTarget => {
            cfg.input.selection_target = if chars_eq_str(v, "none") {
                SelectionTarget::Neither
            } else if chars_eq_str(v, "clipboard") {
                SelectionTarget::Clipboard
            } else if chars_eq_str(v, "both") {
                SelectionTarget::Both
            } else {
                SelectionTarget::Primary
            };
        },
        WindowKey::WordDelimiters => {
            if v.len() > 0 {
                cfg.input.word_delimiters = Some(owned(value));
            }
        },
        WindowKey::Notify => {
            if v.len() > 0 {
                cfg.terminal.notify_command = Some(owned(value));
            }
        },
        WindowKey::ResizeDelay => {
            if let Some(n) = parse_uint(v, 0xffff_ffff) {
                cfg.window.resize_delay_ms = if n < 1000 { n as u32 } else { 1000 };
            }
        },
        WindowKey::SizePixels => {
            if let Some(size) = parse_size_u32(value) {
                cfg.window.initial_size_pixels = Some(size);
            }
        },
        WindowKey::SizeChars => {
            if let Some((w, h)) = parse_size_u32(value) {
                cfg.window.initial_size_chars = Some((u16_saturating(w), u16_saturating(h)));
            }
        },
        WindowKey::Mode => {
            cfg.window.initial_window_mode = if chars_eq_str(v, "maximized") {
                WindowMode::Maximized
            } else if chars_eq_str(v, "fullscreen") {
                WindowMode::Fullscreen
            } else {
                WindowMode::Windowed
            };
        },
        WindowKey::HideWhenTyping => {
            cfg.input.hide_when_typing = is_truthy(v);
        },
        WindowKey::AlternateScroll => {
            cfg.input.alternate_scroll_mode = is_truthy(v);
        },
        WindowKey::Ignored => {},
    }
    assert(cfg@ =~= spec_apply_window_key(old(cfg)@, wk, value@));
}

/// The settings after a window key, or `None` when `key` is not one.
pub open spec fn spec_apply_window(c: SettingsView, key: Seq<char>, v: Seq<char>) -> Option<SettingsView> {
    match spec_window_key(key) {
        Some(wk) => Some(spec_apply_window_key(c, wk, v)),
        None => None,
    }
}

/// Apply a window setting. Returns whether `key` is a window key.
pub fn apply_window(cfg: &mut Settings, key: &str, value: &str) -> (handled: bool)
    ensures
        handled == spec_apply_window(old(cfg)@, key@, value@) is Some,
        handled ==> final(cfg)@ == spec_apply_window(old(cfg)@, key@, value@)->0,
        !handled ==> final(cfg)@ == old(cfg)@,
{
    let k = str_chars(key);
    match window_key(k.as_slice()) {
        Some(wk) => {
            apply_window_key(cfg, wk, value);
            true
        },
        None => false,
    }
}

} // verus!

verus! {

/// The font-variant and scroll keys. Line height, letter spacing and the
/// scroll multiplier are floats, left to the caller.
#[derive(Clone, Copy, PartialEq, Eq, Structural)]
pub enum FontScrollKey {
    FloatValue,
    Bold,
    Italic,
    BoldItalic,
}

pub open spec fn spec_font_scroll_key(key: Seq<char>) -> Option<FontScrollKey> {
    if key == "line-height"@ || key == "line_height"@ || key == "letter-spacing"@ || key == "letter_spacing"@
        || key == "multiplier"@ {
        Some(FontScrollKey::FloatValue)
    } else if key == "font-bold"@ {
        Some(FontScrollKey::Bold)
    } else if key == "font-italic"@ {
        Some(FontScrollKey::Italic)
    } else if key == "font-bold-italic"@ {
        Some(FontScrollKey::BoldItalic)
    } else {
        None
    }
}

fn font_scroll_key(k: &[char]) -> (r: Option<FontScrollKey>)
    ensures
        r == spec_font_scroll_key(k@),
{
    if chars_eq_str(k, "line-height") || chars_eq_str(k, "line_height") || chars_eq_str(k, "letter-spacing")
        || chars_eq_str(k, "letter_spacing") || chars_eq_str(k, "multiplier") {
        Some(FontScrollKey::FloatValue)
    } else if chars_eq_str(k, "font-bold") {
        Some(FontScrollKey::Bold)
    } else if chars_eq_str(k, "font-italic") {
        Some(FontScrollKey::Italic)
    } else if chars_eq_str(k, "font-bold-italic") {
        Some(FontScrollKey::BoldItalic)
    } else {
        None
    }
}

/// The settings after a font-variant or scroll key, or `None` when `key`
/// is not one.
pub open spec fn spec_apply_font_scroll(c: SettingsView, key: Seq<char>, v: Seq<char>) -> Option<SettingsView> {
    match spec_font_scroll_key(key) {
        Some(FontScrollKey::FloatValue) => Some(c),
        Some(FontScrollKey::Bold) => Some(
            match spec_parse_foot_font_family(v) {
                Some(f) => SettingsView { font_bold: Some(f), ..c },
                None => c,
            },
        ),
        Some(FontScrollKey::Italic) => Some(
            match spec_parse_foot_font_family(v) {
                Some(f) => SettingsView { font_italic: Some(f), ..c },
                None => c,
            },
        ),
        Some(FontScrollKey::BoldItalic) => Some(
            match spec_parse_foot_font_family(v) {
                Some(f) => SettingsView { font_bold_italic: Some(f), ..c },
                None => c,
            },
        ),
        None => None,
    }
}

/// Apply a font-variant or scroll setting. Returns whether `key` is one.
pub fn apply_font_scroll(cfg: &mut Settings, key: &str, value: &str) -> (handled: bool)
    ensures
        handled == spec_apply_font_scroll(old(cfg)@, key@, value@) is Some,
        handled ==> final(cfg)@ == spec_apply_font_scroll(old(cfg)@, key@, value@)->0,
        !handled ==> final(cfg)@ == old(cfg)@,
{
    let k = str_chars(key);
    match font_scroll_key(k.as_slice()) {
        Some(FontScrollKey::FloatValue) => {},
        Some(FontScrollKey::Bold) => {
            if let Some(family) = parse_foot_font_family(value) {
                cfg.font.bold = Some(family);
            }
        },
        Some(FontScrollKey::Italic) => {
            if let Some(family) = parse_foot_font_family(value) {
                cfg.font.italic = Some(family);
            }
        },
        Some(FontScrollKey::BoldItalic) => {
            if let Some(family) = parse_foot_font_family(value) {
                cfg.font.bold_italic = Some(family);
            }
        },
        None => {
            return false;
        },
    }
    assert(cfg@ =~= spec_apply_font_scroll(old(cfg)@, key@, value@)->0);
    true
}

/// The appearance keys: opacity (a float, left to the caller), padding,
/// the colours, the dim palette, the palette, and foot keys accepted
/// without effect.
#[derive(Clone, Copy, PartialEq, Eq, Structural)]
pub enum AppearanceKey {
    Opacity,
    Padding,
    Foreground,
    Background,
    CursorColor,
    FootCursor,
    SelectionFg,
    SelectionBg,
    Ignored,
    Dim,
    Palette(usize),
}

/// `dimN`: four characters, `dim` and one ASCII character.
pub open spec fn is_dim_key(key: Seq<char>) -> bool {
    key.len() == 4 && key[0] == 'd' && key[1] == 'i' && key[2] == 'm' && (key[3] as u32) < 0x80
}

pub open spec fn spec_appearance_key(key: Seq<char>) -> Option<AppearanceKey> {
    if key == "opacity"@ || key == "background-opacity"@ || key == "background_opacity"@ || key == "alpha"@ {
        Some(AppearanceKey::Opacity)
    } else if key == "padding"@ || key == "pad"@ {
        Some(AppearanceKey::Padding)
    } else if key == "foreground"@ || key == "fg"@ {
        Some(AppearanceKey::Foreground)
    } else if key == "background"@ || key == "bg"@ {
        Some(AppearanceKey::Background)
    } else if key == "cursor-color"@ || key == "cursor_color"@ {
        Some(AppearanceKey::CursorColor)
    } else if key == "cursor"@ {
        Some(AppearanceKey::FootCursor)
    } else if key == "selection-foreground"@ || key == "selection_foreground"@ {
        Some(AppearanceKey::SelectionFg)
    } else if key == "selection-background"@ || key == "selection_background"@ {
        Some(AppearanceKey::SelectionBg)
    } else if key == "jump-labels"@ || key == "scrollback-indicator"@ || key == "search-box-no-match"@
        || key == "search-box-match"@ || key == "urls"@ {
        Some(AppearanceKey::Ignored)
    } else if is_dim_key(key) {
        Some(AppearanceKey::Dim)
    } else {
        match spec_parse_palette_key(key) {
            Some(i) => Some(AppearanceKey::Palette(i)),
            None => None,
        }
    }
}

fn appearance_key(key: &str, k: &[char]) -> (r: Option<AppearanceKey>)
    requires
        k@ == key@,
    ensures
        r == spec_appearance_key(k@),
{
    if chars_eq_str(k, "opacity") || chars_eq_str(k, "background-opacity") || chars_eq_str(k, "background_opacity")
        || chars_eq_str(k, "alpha") {
        Some(AppearanceKey::Opacity)
    } else if chars_eq_str(k, "padding") || chars_eq_str(k, "pad") {
        Some(AppearanceKey::Padding)
    } else if chars_eq_str(k, "foreground") || chars_eq_str(k, "fg") {
        Some(AppearanceKey::Foreground)
    } else if chars_eq_str(k, "background") || chars_eq_str(k, "bg") {
        Some(AppearanceKey::Background)
    } else if chars_eq_str(k, "cursor-color") || chars_eq_str(k, "cursor_color") {
        Some(AppearanceKey::CursorColor)
    } else if chars_eq_str(k, "cursor") {
        Some(AppearanceKey::FootCursor)
    } else if chars_eq_str(k, "selection-foreground") || chars_eq_str(k, "selection_foreground") {
        Some(AppearanceKey::SelectionFg)
    } else if chars_eq_str(k, "selection-background") || chars_eq_str(k, "selection_background") {
        Some(AppearanceKey::SelectionBg)
    } else if chars_eq_str(k, "jump-labels") || chars_eq_str(k, "scrollback-indicator") || chars_eq_str(
        k,
        "search-box-no-match",
    ) || chars_eq_str(k, "search-box-match") || chars_eq_str(k, "urls") {
        Some(AppearanceKey::Ignored)
    } else if k.len() == 4 && k[0] == 'd' && k[1] == 'i' && k[2] == 'm' && (k[3] as u32) < 0x80 {
        Some(AppearanceKey::Dim)
    } else {
        match parse_palette_key(key) {
            Some(i) => Some(AppearanceKey::Palette(i)),
            None => None,
        }
    }
}

/// The colour a parsed `(r, g, b)` stands for.
pub open spec fn to_color(o: Option<(u8, u8, u8)>) -> Option<Color> {
    match o {
        Some((r, g, b)) => Some(Color { r, g, b }),
        None => None,
    }
}

/// First index at or after `i` that holds whitespace (or the end).
pub open spec fn ws_from(s: Seq<char>, i: int) -> int
    decreases s.len() - i,
{
    if 0 <= i < s.len() && !spec_is_unicode_whitespace(s[i]) {
        ws_from(s, i + 1)
    } else {
        i
    }
}

/// First index in `i .. hi` that holds `c` (or `hi`).
pub open spec fn char_from(s: Seq<char>, c: char, i: int, hi: int) -> int
    decreases hi - i,
{
    if i < hi && s[i] != c {
        char_from(s, c, i + 1, hi)
    } else {
        i
    }
}

/// The padding digits of foot's `pad=NxM [center]`: the first word (or the
/// whole value when it has none), up to its first `x`.
pub open spec fn spec_padding_text(v: Seq<char>) -> Seq<char> {
    let a = crate::text::skip_ws_front(v, 0);
    let lo = if a >= v.len() { 0 } else { a };
    let hi = if a >= v.len() { v.len() as int } else { ws_from(v, a) };
    v.subrange(lo, char_from(v, 'x', lo, hi))
}

fn padding_text_bounds(v: &[char]) -> (r: (usize, usize))
    ensures
        r.0 <= r.1 <= v@.len(),
        v@.subrange(r.0 as int, r.1 as int) == spec_padding_text(v@),
{
    let n = v.len();
    let mut a: usize = 0;
    while a < n && is_unicode_whitespace(v[a])
        invariant
            a <= n == v@.len(),
            crate::text::skip_ws_front(v@, 0) == crate::text::skip_ws_front(v@, a as int),
        decreases n - a,
    {
        a = a + 1;
    }
    let lo: usize = if a >= n { 0 } else { a };
    let mut hi: usize = n;
    if a < n {
        let mut e = a;
        while e < n && !is_unicode_whitespace(v[e])
            invariant
                a <= e <= n == v@.len(),
                ws_from(v@, a as int) == ws_from(v@, e as int),
            decreases n - e,
        {
            e = e + 1;
        }
        hi = e;
    }
    let mut x = lo;
    while x < hi && v[x] != 'x'
        invariant
            lo <= x <= hi <= n == v@.len(),
            char_from(v@, 'x', lo as int, hi as int) == char_from(v@, 'x', x as int, hi as int),
        decreases hi - x,
    {
        x = x + 1;
    }
    (lo, x)
}

/// The settings after appearance key `ak` (named `key`) is set to `v`.
pub open spec fn spec_apply_appearance_key(c: SettingsView, ak: AppearanceKey, key: Seq<char>, v: Seq<char>) -> SettingsView {
    let color = to_color(spec_parse_hex_color(v));
    match ak {
        AppearanceKey::Opacity => c,
        AppearanceKey::Padding => match spec_uint(spec_padding_text(v), u32::MAX as nat) {
            Some(n) => SettingsView { padding: (if n < 100 { n } else { 100 }) as u32, ..c },
            None => c,
        },
        AppearanceKey::Foreground => if color is Some { SettingsView { foreground: color, ..c } } else { c },
        AppearanceKey::Background => if color is Some { SettingsView { background: color, ..c } } else { c },
        AppearanceKey::CursorColor => if color is Some { SettingsView { cursor: color, ..c } } else { c },
        AppearanceKey::FootCursor => match to_color(spec_parse_foot_cursor_color(v)) {
            Some(cc) => SettingsView { cursor: Some(cc), ..c },
            None => c,
        },
        AppearanceKey::SelectionFg => if color is Some { SettingsView { selection_fg: color, ..c } } else { c },
        AppearanceKey::SelectionBg => if color is Some { SettingsView { selection_bg: color, ..c } } else { c },
        AppearanceKey::Ignored => c,
        AppearanceKey::Dim => {
            let d = (key[3] as u32) - ('0' as u32);
            if '0' <= key[3] <= '7' && color is Some {
                SettingsView { dim_palette: c.dim_palette.update(d, color), ..c }
            } else {
                c
            }
        },
        AppearanceKey::Palette(i) => if color is Some && i < 16 {
            SettingsView { palette: c.palette.update(i as int, color), ..c }
        } else {
            c
        },
    }
}

fn hex_color(v: &str) -> (r: Option<Color>)
    ensures
        r == to_color(spec_parse_hex_color(v@)),
{
    parse_hex_color(v)
}

fn apply_appearance_key(cfg: &mut Settings, ak: AppearanceKey, key: &[char], value: &str)
    requires
        ak == AppearanceKey::Dim ==> is_dim_key(key@),
    ensures
        final(cfg)@ == spec_apply_appearance_key(old(cfg)@, ak, key@, value@),
{
    let vv = str_chars(value);
    let v = vv.as_slice();
    let color = hex_color(value);
    match ak {
        AppearanceKey::Opacity => {},
        AppearanceKey::Padding => {
            let (lo, hi) = padding_text_bounds(v);
            if let Some(n) = parse_u64(v, lo, hi) {
                if n <= 0xffff_ffff {
                    cfg.window.padding = if n < 100 { n as u32 } else { 100 };
                }
            }
        },
        AppearanceKey::Foreground => {
            if color.is_some() {
                cfg.colors.foreground = color;
            }
        },
        AppearanceKey::Background => {
            if color.is_some() {
                cfg.colors.background = color;
            }
        },
        AppearanceKey::CursorColor => {
            if color.is_some() {
                cfg.colors.cursor = color;
            }
        },
        AppearanceKey::FootCursor => {
            if let Some(cc) = parse_foot_cursor_color(value) {
                cfg.colors.cursor = Some(cc);
            }
        },
        AppearanceKey::SelectionFg => {
            if color.is_some() {
                cfg.colors.selection_fg = color;
            }
        },
        AppearanceKey::SelectionBg => {
            if color.is_some() {
                cfg.colors.selection_bg = color;
            }
        },
        AppearanceKey::Ignored => {},
        AppearanceKey::Dim => {
            let ch = key[3];
            if '0' <= ch && ch <= '7' && color.is_some() {
                let d = ((ch as u32) - ('0' as u32)) as usize;
                cfg.colors.dim_palette[d] = color;
            }
        },
        AppearanceKey::Palette(i) => {
            if color.is_some() && i < 16 {
                cfg.colors.palette[i] = color;
            }
        },
    }
    assert(cfg@ =~= spec_apply_appearance_key(old(cfg)@, ak, key@, value@));
}

/// The settings after an appearance key, and whether `key` is one (an
/// unknown key leaves the settings alone).
pub open spec fn spec_apply_appearance(c: SettingsView, key: Seq<char>, v: Seq<char>) -> (SettingsView, bool) {
    match spec_appearance_key(key) {
        Some(ak) => (spec_apply_appearance_key(c, ak, key, v), true),
        None => (c, false),
    }
}

/// Apply an appearance setting. Returns whether `key` is known.
pub fn apply_appearance(cfg: &mut Settings, key: &str, value: &str) -> (known: bool)
    ensures
        known == spec_apply_appearance(old(cfg)@, key@, value@).1,
        final(cfg)@ == spec_apply_appearance(old(cfg)@, key@, value@).0,
{
    let k = str_chars(key);
    match appearance_key(key, k.as_slice()) {
        Some(ak) => {
            apply_appearance_key(cfg, ak, k.as_slice(), value);
            true
        },
        None => false,
    }
}

/// The settings after one `key=value` line of a settings section, and
/// whether the key is known: core, window, font and scroll, then
/// appearance keys are tried in turn.
pub open spec fn spec_apply_setting(c: SettingsView, key: Seq<char>, v: Seq<char>) -> (SettingsView, bool) {
    match spec_apply_core(c, key, v) {
        Some(c1) => (c1, true),
        None => match spec_apply_window(c, key, v) {
            Some(c2) => (c2, true),
            None => match spec_apply_font_scroll(c, key, v) {
                Some(c3) => (c3, true),
                None => spec_apply_appearance(c, key, v),
            },
        },
    }
}

/// Apply one `key=value` setting. Returns whether the key is known.
pub fn apply_setting(cfg: &mut Settings, key: &str, value: &str) -> (known: bool)
    ensures
        known == spec_apply_setting(old(cfg)@, key@, value@).1,
        final(cfg)@ == spec_apply_setting(old(cfg)@, key@, value@).0,
{
    if apply_core(cfg, key, value) {
        return true;
    }
    if apply_window(cfg, key, value) {
        return true;
    }
    if apply_font_scroll(cfg, key, value) {
        return true;
    }
    apply_appearance(cfg, key, value)
}

} // verus!

verus! {

/// One `key=value` line of foot.ini: its section, key and value (`None`
/// for a key without a value).
pub type IniEntry = (String, String, Option<String>);

/// The settings after one INI line: a line without a value is skipped,
/// lines of `[key-bindings]` (in any letter case) set key bindings, and all
/// other lines are settings.
pub open spec fn spec_apply_entry(c: SettingsView, e: IniEntry) -> SettingsView {
    match e.2 {
        None => c,
        Some(v) => if crate::text::spec_eq_ignore_ascii_case(e.0@, "key-bindings"@) {
            SettingsView { bindings: spec_apply_key_binding(c.bindings, e.1@, v@), ..c }
        } else {
            spec_apply_setting(c, e.1@, v@).0
        },
    }
}

/// The settings after the first `n` INI lines, in order.
pub open spec fn spec_apply_entries(c: SettingsView, entries: Seq<IniEntry>, n: nat) -> SettingsView
    decreases n,
{
    if n == 0 || n > entries.len() {
        c
    } else {
        spec_apply_entry(spec_apply_entries(c, entries, (n - 1) as nat), entries[n - 1])
    }
}

/// Apply INI lines in order.
pub fn apply_entries(cfg: &mut Settings, entries: &[IniEntry])
    ensures
        final(cfg)@ == spec_apply_entries(old(cfg)@, entries@, entries@.len()),
{
    let mut i: usize = 0;
    while i < entries.len()
        invariant
            i <= entries@.len(),
            cfg@ == spec_apply_entries(old(cfg)@, entries@, i as nat),
        decreases entries@.len() - i,
    {
        let e = &entries[i];
        match &e.2 {
            None => {},
            Some(v) => {
                if crate::text::eq_ignore_ascii_case(e.0.as_str(), "key-bindings") {
                    apply_key_binding(&mut cfg.bindings, e.1.as_str(), v.as_str());
                } else {
                    let _ = apply_setting(cfg, e.1.as_str(), v.as_str());
                }
            },
        }
        assert(cfg@ =~= spec_apply_entry(spec_apply_entries(old(cfg)@, entries@, i as nat), entries@[i as int]));
        i = i + 1;
    }
}

/// What configparser reads from `text` with a case-insensitive parser
/// whose inline comment symbols are switched off: `None` when it rejects
/// the text, else each `(section, key, value)` it holds, counted as a
/// multiset (its maps are walked in an order that varies between runs).
pub uninterp spec fn ini_parse_lines(text: Seq<char>) -> Option<Multiset<(Seq<char>, Seq<char>, Option<Seq<char>>)>>;

/// An INI line as plain values.
pub open spec fn ini_entry_view(e: IniEntry) -> (Seq<char>, Seq<char>, Option<Seq<char>>) {
    (
        e.0@,
        e.1@,
        match e.2 {
            Some(v) => Some(v@),
            None => None,
        },
    )
}

/// The INI lines of a list, counted regardless of order.
pub open spec fn ini_entries_multiset(es: Seq<IniEntry>) -> Multiset<(Seq<char>, Seq<char>, Option<Seq<char>>)> {
    es.map_values(|e: IniEntry| ini_entry_view(e)).to_multiset()
}

/// Parses `contents` with `configparser::ini::Ini` (`Ini::new`, then
/// `set_inline_comment_symbols` with no symbols so that `#` inside a
/// colour value is kept, then `Ini::read`) and lists, for each section,
/// each key with its value. The lines are the multiset that
/// `ini_parse_lines` names for the text, `None` exactly when configparser
/// rejects it; their order is that of configparser's hash maps.
#[verifier::external_body]
fn ini_parse(contents: &str) -> (r: Option<Vec<IniEntry>>)
    ensures
        r is None <==> ini_parse_lines(contents@) is None,
        r matches Some(es) ==> ini_parse_lines(contents@) == Some(ini_entries_multiset(es@)),
{
    let mut ini = configparser::ini::Ini::new();
    ini.set_inline_comment_symbols(Some(&[]));
    let map = match ini.read(contents.to_string()) {
        Ok(m) => m,
        Err(_) => return None,
    };
    let mut out: Vec<IniEntry> = Vec::new();
    for (section, kvs) in map {
        for (key, val) in kvs {
            out.push((section.clone(), key, val));
        }
    }
    Some(out)
}

/// Parse foot.ini text: the lines that configparser reads (none when the
/// text is not valid INI), and the default settings with them applied in
/// that order. The lines are returned so that the caller can apply the
/// floating-point settings in the same order.
pub fn parse_ini(contents: &str) -> (r: (Settings, Vec<IniEntry>))
    ensures
        ini_parse_lines(contents@) is None ==> r.1@.len() == 0,
        ini_parse_lines(contents@) matches Some(m) ==> ini_entries_multiset(r.1@) == m,
        r.0@ == spec_apply_entries(spec_default_settings(), r.1@, r.1@.len()),
{
    let entries = match ini_parse(contents) {
        Some(e) => e,
        None => Vec::new(),
    };
    let mut cfg = Settings::default();
    apply_entries(&mut cfg, entries.as_slice());
    (cfg, entries)
}

} // verus!

verus! {

/// A `-o [section.]key=value` override split into its key (without the
/// section, lower-cased) and its trimmed value; `None` without `=`.
pub open spec fn spec_parse_override(kv: Seq<char>) -> Option<(Seq<char>, Seq<char>)> {
    match find_char(kv, '=', 0) {
        None => None,
        Some(e) => {
            let key_part = crate::text::spec_trim(kv.take(e));
            let key = match find_char(key_part, '.', 0) {
                Some(d) => key_part.skip(d + 1),
                None => key_part,
            };
            Some((crate::text::unicode_lowercase(key), crate::text::spec_trim(kv.skip(e + 1))))
        },
    }
}

/// Split a `[section.]key=value` override into its lower-cased key and its
/// trimmed value.
pub fn parse_override(kv: &str) -> (r: Option<(String, String)>)
    ensures
        r is Some <==> spec_parse_override(kv@) is Some,
        r matches Some((k, v)) ==> spec_parse_override(kv@) == Some((k@, v@)),
{
    let c = str_chars(kv);
    let n = c.len();
    let e = match find_char_exec(c.as_slice(), '=', 0) {
        Some(e) => e,
        None => return None,
    };
    proof {
        crate::text::lemma_find_char_range(c@, '=', 0);
    }
    let (a, b) = crate::text::trim_bounds(c.as_slice(), 0, e);
    let key_part = crate::text::str_slice(kv, a, b);
    assert(c@.subrange(0, e as int) =~= kv@.take(e as int));
    assert(c@.subrange(0, e as int).subrange(a as int, b as int) =~= key_part@);
    let kc = str_chars(key_part);
    let key = match find_char_exec(kc.as_slice(), '.', 0) {
        Some(d) => {
            proof {
                crate::text::lemma_find_char_range(kc@, '.', 0);
            }
            let rest = crate::text::str_slice(key_part, d + 1, kc.len());
            assert(rest@ =~= key_part@.skip(d + 1));
            crate::text::str_to_lowercase(rest)
        },
        None => crate::text::str_to_lowercase(key_part),
    };
    let (va, vb) = crate::text::trim_bounds(c.as_slice(), e + 1, n);
    let value = crate::text::str_slice(kv, va, vb);
    assert(c@.subrange(e + 1, n as int) =~= kv@.skip(e + 1));
    assert(c@.subrange(e + 1, n as int).subrange(va - (e + 1), vb - (e + 1)) =~= value@);
    Some((key, value.to_owned()))
}

/// The settings after an override, and whether it had a `=` and a known key.
pub open spec fn spec_apply_override(c: SettingsView, kv: Seq<char>) -> (SettingsView, bool) {
    match spec_parse_override(kv) {
        Some((k, v)) => spec_apply_setting(c, k, v),
        None => (c, false),
    }
}

/// Apply a single `[section.]key=value` override (from the `-o` flag).
/// Returns whether it had a `=` and named a known key.
pub fn apply_override(cfg: &mut Settings, kv: &str) -> (applied: bool)
    ensures
        applied == spec_apply_override(old(cfg)@, kv@).1,
        final(cfg)@ == spec_apply_override(old(cfg)@, kv@).0,
{
    match parse_override(kv) {
        Some((k, v)) => apply_setting(cfg, k.as_str(), v.as_str()),
        None => false,
    }
}

/// A line that is not blank, a comment or a section header, and has no
/// `=`: what the config check reports.
pub open spec fn missing_separator(line: Seq<char>) -> bool {
    let t = crate::text::spec_trim(line);
    t.len() > 0 && t[0] != '#' && t[0] != '[' && find_char(t, '=', 0) is None
}

/// Numbers (from `n`) of the lines from offset `i` on that lack a `=`.
pub open spec fn line_errors_from(s: Seq<char>, i: int, n: nat) -> Seq<nat>
    decreases s.len() - i,
    when 0 <= i <= s.len()
{
    let end = match find_char(s, '\n', i) {
        Some(k) => k,
        None => s.len() as int,
    };
    proof {
        crate::text::lemma_find_char_range(s, '\n', i);
    }
    let here = if missing_separator(s.subrange(i, end)) { seq![n] } else { Seq::empty() };
    match find_char(s, '\n', i) {
        Some(k) => here + line_errors_from(s, k + 1, n + 1),
        None => here,
    }
}

/// The 1-based numbers of the lines of `contents` that are not blank, a
/// comment or a section header, and have no `=` separator.
pub fn config_line_errors(contents: &str) -> (r: Vec<usize>)
    requires
        contents@.len() < usize::MAX,
    ensures
        r@.map_values(|x: usize| x as nat) == line_errors_from(contents@, 0, 1),
{
    let c = str_chars(contents);
    let s = c.as_slice();
    let n = s.len();
    let mut out: Vec<usize> = Vec::new();
    let mut i: usize = 0;
    let mut ln: usize = 1;
    loop
        invariant
            i <= n == s@.len(),
            s@ == contents@,
            n < usize::MAX,
            1 <= ln <= i + 1,
            out@.map_values(|x: usize| x as nat) + line_errors_from(s@, i as int, ln as nat) == line_errors_from(
                s@,
                0,
                1,
            ),
        decreases n - i,
    {
        proof {
            crate::text::lemma_find_char_range(s@, '\n', i as int);
        }
        let found = find_char_exec(s, '\n', i);
        let end = match found {
            Some(k) => k,
            None => n,
        };
        let (a, b) = crate::text::trim_bounds(s, i, end);
        let ghost t = crate::text::spec_trim(s@.subrange(i as int, end as int));
        assert(s@.subrange(a as int, b as int) =~= t);
        let bad = a < b && s[a] != '#' && s[a] != '[' && find_char_exec(
            vstd::slice::slice_subrange(s, a, b),
            '=',
            0,
        ).is_none();
        let ghost prev = out@.map_values(|x: usize| x as nat);
        if bad {
            out.push(ln);
        }
        proof {
            let here = if missing_separator(s@.subrange(i as int, end as int)) { seq![ln as nat] } else { Seq::<nat>::empty() };
            assert(out@.map_values(|x: usize| x as nat) =~= prev + here);
        }
        match found {
            Some(k) => {
                assert(prev + (if missing_separator(s@.subrange(i as int, end as int)) { seq![ln as nat] } else { Seq::<nat>::empty() }) + line_errors_from(s@, k + 1, (ln + 1) as nat) =~= prev + line_errors_from(s@, i as int, ln as nat));
                i = k + 1;
                ln = ln + 1;
            },
            None => {
                assert(prev + (if missing_separator(s@.subrange(i as int, end as int)) { seq![ln as nat] } else { Seq::<nat>::empty() }) =~= prev + line_errors_from(s@, i as int, ln as nat));
                assert(out@.map_values(|x: usize| x as nat) =~= line_errors_from(s@, 0, 1));
                return out;
            },
        }
    }
}

/// Lower-case hexadecimal digit of `d` (below 16), as an ASCII byte.
pub open spec fn hex_digit(d: int) -> u8 {
    if d < 10 { (0x30 + d) as u8 } else { (0x61 + d - 10) as u8 }
}

/// `#rrggbb` as ASCII bytes.
pub open spec fn hex_color_bytes(c: Color) -> Seq<u8> {
    seq![
        0x23u8,
        hex_digit((c.r / 16) as int),
        hex_digit((c.r % 16) as int),
        hex_digit((c.g / 16) as int),
        hex_digit((c.g % 16) as int),
        hex_digit((c.b / 16) as int),
        hex_digit((c.b % 16) as int),
    ]
}

/// `ESC ] code ; #rrggbb ESC \`: an OSC sequence that sets a colour.
pub open spec fn osc_color(code: Seq<u8>, c: Color) -> Seq<u8> {
    seq![0x1bu8, 0x5du8] + code + seq![0x3bu8] + hex_color_bytes(c) + seq![0x1bu8, 0x5cu8]
}

/// An OSC sequence for the colour if it is set, else nothing.
pub open spec fn osc_opt(code: Seq<u8>, c: Option<Color>) -> Seq<u8> {
    match c {
        Some(col) => osc_color(code, col),
        None => Seq::empty(),
    }
}

/// The decimal digits of `i` (below 100) as ASCII bytes.
pub open spec fn small_decimal(i: int) -> Seq<u8> {
    if i < 10 { seq![(0x30 + i) as u8] } else { seq![(0x30 + i / 10) as u8, (0x30 + i % 10) as u8] }
}

/// The OSC 4 sequences for the first `n` palette entries that are set.
pub open spec fn osc_palette(palette: Seq<Option<Color>>, n: nat) -> Seq<u8>
    decreases n,
{
    if n == 0 {
        Seq::empty()
    } else {
        osc_palette(palette, (n - 1) as nat) + osc_opt(
            seq![0x34u8, 0x3bu8] + small_decimal(n - 1),
            palette[n - 1],
        )
    }
}

/// The escape sequences that set the configured colours on the terminal:
/// OSC 10 (foreground), 11 (background), 12 (cursor) and OSC 4 for each
/// palette entry, each only when set.
pub open spec fn spec_color_osc(colors: ColorSettings) -> Seq<u8> {
    osc_opt(seq![0x31u8, 0x30u8], colors.foreground) + osc_opt(seq![0x31u8, 0x31u8], colors.background) + osc_opt(
        seq![0x31u8, 0x32u8],
        colors.cursor,
    ) + osc_palette(colors.palette@, 16)
}

fn hex_digit_exec(d: u8) -> (r: u8)
    requires
        d < 16,
    ensures
        r == hex_digit(d as int),
{
    if d < 10 { 0x30 + d } else { 0x61 + d - 10 }
}

fn push_osc(out: &mut Vec<u8>, code: &[u8], c: Color)
    ensures
        final(out)@ == old(out)@ + osc_color(code@, c),
{
    let ghost o = out@;
    out.push(0x1b);
    out.push(0x5d);
    let mut i: usize = 0;
    while i < code.len()
        invariant
            i <= code@.len(),
            out@ == o + seq![0x1bu8, 0x5du8] + code@.take(i as int),
        decreases code@.len() - i,
    {
        out.push(code[i]);
        assert(code@.take(i as int + 1) =~= code@.take(i as int).push(code@[i as int]));
        i = i + 1;
    }
    assert(code@.take(code@.len() as int) =~= code@);
    out.push(0x3b);
    out.push(0x23);
    out.push(hex_digit_exec(c.r / 16));
    out.push(hex_digit_exec(c.r % 16));
    out.push(hex_digit_exec(c.g / 16));
    out.push(hex_digit_exec(c.g % 16));
    out.push(hex_digit_exec(c.b / 16));
    out.push(hex_digit_exec(c.b % 16));
    out.push(0x1b);
    out.push(0x5c);
    assert(out@ =~= o + osc_color(code@, c));
}

fn push_osc_opt(out: &mut Vec<u8>, code: &[u8], c: Option<Color>)
    ensures
        final(out)@ == old(out)@ + osc_opt(code@, c),
{
    match c {
        Some(col) => push_osc(out, code, col),
        None => {
            assert(out@ =~= out@ + Seq::<u8>::empty());
        },
    }
}

/// Generate OSC escape sequences to set the configured colours on the
/// terminal.
pub fn color_osc_sequences(colors: &ColorSettings) -> (buf: Vec<u8>)
    ensures
        buf@ == spec_color_osc(*colors),
{
    let mut buf: Vec<u8> = Vec::new();
    let c10: [u8; 2] = [0x31, 0x30];
    let c11: [u8; 2] = [0x31, 0x31];
    let c12: [u8; 2] = [0x31, 0x32];
    assert(c10@ =~= seq![0x31u8, 0x30u8]);
    assert(c11@ =~= seq![0x31u8, 0x31u8]);
    assert(c12@ =~= seq![0x31u8, 0x32u8]);
    push_osc_opt(&mut buf, c10.as_slice(), colors.foreground);
    push_osc_opt(&mut buf, c11.as_slice(), colors.background);
    push_osc_opt(&mut buf, c12.as_slice(), colors.cursor);
    let ghost head = buf@;
    assert(head =~= osc_opt(seq![0x31u8, 0x30u8], colors.foreground) + osc_opt(seq![0x31u8, 0x31u8], colors.background)
        + osc_opt(seq![0x31u8, 0x32u8], colors.cursor));
    let mut i: usize = 0;
    while i < 16
        invariant
            i <= 16,
            buf@ == head + osc_palette(colors.palette@, i as nat),
        decreases 16 - i,
    {
        let mut code: Vec<u8> = Vec::new();
        code.push(0x34);
        code.push(0x3b);
        if i < 10 {
            code.push(0x30 + i as u8);
        } else {
            code.push(0x31);
            code.push(0x30 + (i - 10) as u8);
        }
        assert(code@ =~= seq![0x34u8, 0x3bu8] + small_decimal(i as int));
        push_osc_opt(&mut buf, code.as_slice(), colors.palette[i]);
        assert(buf@ =~= head + osc_palette(colors.palette@, (i + 1) as nat));
        i = i + 1;
    }
    buf
}

} // verus!

verus! {

/// Command-line settings, as the option parser delivers them.
pub struct CliOptions {
    /// Font (fontconfig format, e.g. `JetBrains Mono:size=12`).
    pub font: Option<String>,
    pub title: Option<String>,
    pub app_id: Option<String>,
    pub term: Option<String>,
    pub login_shell: bool,
    pub hold: bool,
    pub maximized: bool,
    pub fullscreen: bool,
    pub working_directory: Option<std::path::PathBuf>,
    /// Initial window size in pixels (`WIDTHxHEIGHT`).
    pub window_size_pixels: Option<String>,
    /// Initial window size in characters (`COLSxROWS`).
    pub window_size_chars: Option<String>,
    /// `[section.]key=value` overrides, applied last.
    pub overrides: Vec<String>,
}

/// The settings after the overrides `ovs[0 .. n]`, in order.
pub open spec fn spec_apply_overrides(c: SettingsView, ovs: Seq<String>, n: nat) -> SettingsView
    decreases n,
{
    if n == 0 || n > ovs.len() {
        c
    } else {
        spec_apply_override(spec_apply_overrides(c, ovs, (n - 1) as nat), ovs[n - 1]@).0
    }
}

/// The settings after the command-line font, given as a `font` setting.
pub open spec fn cli_font(c: SettingsView, font: Option<String>) -> SettingsView {
    match font {
        Some(f) => spec_apply_setting(c, "font"@, crate::text::spec_trim(f@)).0,
        None => c,
    }
}

/// The settings after the command-line title, app-id and TERM.
pub open spec fn cli_names(c: SettingsView, title: Option<String>, app_id: Option<String>, term: Option<String>) -> SettingsView {
    let c2 = match title {
        Some(t) => SettingsView { title: t@, ..c },
        None => c,
    };
    let c3 = match app_id {
        Some(a) => SettingsView { app_id: a@, ..c2 },
        None => c2,
    };
    match term {
        Some(t) => SettingsView { term: Some(t@), ..c3 },
        None => c3,
    }
}

/// The settings after the command-line flags: login shell and hold turn
/// on, maximized and then fullscreen (which wins) set the window mode.
pub open spec fn cli_flags(c: SettingsView, login_shell: bool, hold: bool, maximized: bool, fullscreen: bool) -> SettingsView {
    let c5 = SettingsView { login_shell: c.login_shell || login_shell, hold: c.hold || hold, ..c };
    if fullscreen {
        SettingsView { initial_window_mode: WindowMode::Fullscreen, ..c5 }
    } else if maximized {
        SettingsView { initial_window_mode: WindowMode::Maximized, ..c5 }
    } else {
        c5
    }
}

/// The settings after the command-line working directory.
pub open spec fn cli_dir(c: SettingsView, dir: Option<std::path::PathBuf>) -> SettingsView {
    match dir {
        Some(d) => SettingsView { working_directory: Some(d), ..c },
        None => c,
    }
}

/// The settings after the command-line initial size in pixels (ignored
/// when it does not parse).
pub open spec fn cli_pixels(c: SettingsView, pixels: Option<String>) -> SettingsView {
    match pixels {
        Some(s) => match spec_parse_size_u32(s@) {
            Some(sz) => SettingsView { initial_size_pixels: Some(sz), ..c },
            None => c,
        },
        None => c,
    }
}

/// The settings after the command-line initial size in characters
/// (ignored when it does not parse; each side saturates at `u16::MAX`).
pub open spec fn cli_chars(c: SettingsView, chars: Option<String>) -> SettingsView {
    match chars {
        Some(s) => match spec_parse_size_u32(s@) {
            Some((w, h)) => SettingsView { initial_size_chars: Some((sat_u16(w), sat_u16(h))), ..c },
            None => c,
        },
        None => c,
    }
}

/// The settings after the command line: font, names, flags, directory and
/// sizes, and last the `-o` overrides.
pub open spec fn spec_apply_cli(c: SettingsView, cli: CliOptions) -> SettingsView {
    let c1 = cli_font(c, cli.font);
    let c4 = cli_names(c1, cli.title, cli.app_id, cli.term);
    let c6 = cli_flags(c4, cli.login_shell, cli.hold, cli.maximized, cli.fullscreen);
    let c9 = cli_chars(cli_pixels(cli_dir(c6, cli.working_directory), cli.window_size_pixels), cli.window_size_chars);
    spec_apply_overrides(c9, cli.overrides@, cli.overrides@.len())
}

fn apply_cli_font(cfg: &mut Settings, font: &Option<String>)
    ensures
        final(cfg)@ == cli_font(old(cfg)@, *font),
{
    if let Some(f) = font {
        let fc = str_chars(f.as_str());
        let (a, b) = crate::text::trim_bounds(fc.as_slice(), 0, fc.len());
        assert(fc@.subrange(0, fc@.len() as int) =~= f@);
        let fv = crate::text::str_slice(f.as_str(), a, b);
        assert(fv@ =~= crate::text::spec_trim(f@));
        let _ = apply_setting(cfg, "font", fv);
    }
}

#[verifier::rlimit(30)]
fn apply_cli_names(cfg: &mut Settings, title: Option<String>, app_id: Option<String>, term: Option<String>)
    ensures
        final(cfg)@ == cli_names(old(cfg)@, title, app_id, term),
{
    let ghost c0 = cfg@;
    if let Some(t) = title {
        cfg.window.title = t;
    }
    let ghost c2 = cfg@;
    assert(c2 =~= match title {
        Some(t) => SettingsView { title: t@, ..c0 },
        None => c0,
    });
    if let Some(a) = app_id {
        cfg.window.app_id = a;
    }
    let ghost c3 = cfg@;
    assert(c3 =~= match app_id {
        Some(a) => SettingsView { app_id: a@, ..c2 },
        None => c2,
    });
    if let Some(t) = term {
        cfg.terminal.term = Some(t);
    }
    assert(cfg@ =~= cli_names(c0, title, app_id, term));
}

fn apply_cli_flags(cfg: &mut Settings, login_shell: bool, hold: bool, maximized: bool, fullscreen: bool)
    ensures
        final(cfg)@ == cli_flags(old(cfg)@, login_shell, hold, maximized, fullscreen),
{
    if login_shell {
        cfg.terminal.login_shell = true;
    }
    if hold {
        cfg.window.hold = true;
    }
    if maximized {
        cfg.window.initial_window_mode = WindowMode::Maximized;
    }
    if fullscreen {
        cfg.window.initial_window_mode = WindowMode::Fullscreen;
    }
    assert(cfg@ =~= cli_flags(old(cfg)@, login_shell, hold, maximized, fullscreen));
}

fn apply_cli_dir(cfg: &mut Settings, dir: Option<std::path::PathBuf>)
    ensures
        final(cfg)@ == cli_dir(old(cfg)@, dir),
{
    let ghost d0 = dir;
    if let Some(d) = dir {
        cfg.terminal.working_directory = Some(d);
    }
    assert(cfg@ =~= cli_dir(old(cfg)@, d0));
}

fn apply_cli_pixels(cfg: &mut Settings, pixels: &Option<String>)
    ensures
        final(cfg)@ == cli_pixels(old(cfg)@, *pixels),
{
    if let Some(s) = pixels {
        if let Some(sz) = parse_size_u32(s.as_str()) {
            cfg.window.initial_size_pixels = Some(sz);
        }
    }
    assert(cfg@ =~= cli_pixels(old(cfg)@, *pixels));
}

fn apply_cli_chars(cfg: &mut Settings, chars: &Option<String>)
    ensures
        final(cfg)@ == cli_chars(old(cfg)@, *chars),
{
    if let Some(s) = chars {
        if let Some((w, h)) = parse_size_u32(s.as_str()) {
            cfg.window.initial_size_chars = Some((u16_saturating(w), u16_saturating(h)));
        }
    }
    assert(cfg@ =~= cli_chars(old(cfg)@, *chars));
}

/// Apply the command line to the settings (file < command line < `-o`).
pub fn apply_cli(cfg: &mut Settings, cli: CliOptions)
    ensures
        final(cfg)@ == spec_apply_cli(old(cfg)@, cli),
{
    let CliOptions {
        font,
        title,
        app_id,
        term,
        login_shell,
        hold,
        maximized,
        fullscreen,
        working_directory,
        window_size_pixels,
        window_size_chars,
        overrides,
    } = cli;
    apply_cli_font(cfg, &font);
    apply_cli_names(cfg, title, app_id, term);
    apply_cli_flags(cfg, login_shell, hold, maximized, fullscreen);
    apply_cli_dir(cfg, working_directory);
    apply_cli_pixels(cfg, &window_size_pixels);
    apply_cli_chars(cfg, &window_size_chars);
    let ghost c9 = cfg@;
    let mut i: usize = 0;
    while i < overrides.len()
        invariant
            i <= overrides@.len(),
            cfg@ == spec_apply_overrides(c9, overrides@, i as nat),
        decreases overrides@.len() - i,
    {
        let _ = apply_override(cfg, overrides[i].as_str());
        i = i + 1;
    }
}

/// The command to run: the trailing arguments without a leading `-e`
/// (accepted for foot compatibility); `None` when nothing is left.
pub open spec fn spec_command(args: Seq<Seq<char>>) -> Option<Seq<Seq<char>>> {
    let rest = if args.len() > 0 && args[0] == "-e"@ { args.drop_first() } else { args };
    if rest.len() == 0 { None } else { Some(rest) }
}

/// Pick the command from the trailing arguments.
pub fn command_from_args(args: Vec<String>) -> (r: Option<Vec<String>>)
    ensures
        r is Some <==> spec_command(args@.map_values(|s: String| s@)) is Some,
        r matches Some(v) ==> spec_command(args@.map_values(|s: String| s@)) == Some(v@.map_values(|s: String| s@)),
{
    let mut args = args;
    let ghost a0 = args@.map_values(|s: String| s@);
    if args.len() > 0 && crate::text::str_eq(args[0].as_str(), "-e") {
        let _ = args.remove(0);
        assert(args@.map_values(|s: String| s@) =~= a0.drop_first());
    }
    if args.len() == 0 {
        None
    } else {
        Some(args)
    }
}

} // verus!

verus! {

/// A line whose key is not known leaves the settings as they were.
pub proof fn law_unknown_key_ignored(c: SettingsView, key: Seq<char>, v: Seq<char>)
    requires
        !spec_apply_setting(c, key, v).1,
    ensures
        spec_apply_setting(c, key, v).0 == c,
{
}

/// The yes/no settings read `yes`, `true` and `1` as on and anything else
/// as off (`login-shell` only `yes` and `true`), change nothing else, and
/// are known keys.
pub proof fn law_boolean_settings(c: SettingsView, v: Seq<char>)
    ensures
        spec_apply_setting(c, "locked-title"@, v) == (SettingsView { locked_title: v == "yes"@ || v == "true"@ || v == "1"@, ..c }, true),
        spec_apply_setting(c, "cursor-blink"@, v) == (SettingsView { cursor_blink: v == "yes"@ || v == "true"@ || v == "1"@, ..c }, true),
        spec_apply_setting(c, "bold-is-bright"@, v) == (SettingsView { bold_is_bright: v == "yes"@ || v == "true"@ || v == "1"@, ..c }, true),
        spec_apply_setting(c, "bold-text-in-bright"@, v) == (SettingsView { bold_is_bright: v == "yes"@ || v == "true"@ || v == "1"@, ..c }, true),
        spec_apply_setting(c, "login-shell"@, v) == (SettingsView { login_shell: v == "yes"@ || v == "true"@, ..c }, true),
        spec_apply_setting(c, "hide-when-typing"@, v) == (SettingsView { hide_when_typing: v == "yes"@ || v == "true"@ || v == "1"@, ..c }, true),
        spec_apply_setting(c, "alternate-scroll-mode"@, v) == (SettingsView { alternate_scroll_mode: v == "yes"@ || v == "true"@ || v == "1"@, ..c }, true),
{
    reveal_strlit("font-size");
    reveal_strlit("font_size");
    reveal_strlit("font");
    reveal_strlit("scrollback");
    reveal_strlit("lines");
    reveal_strlit("shell");
    reveal_strlit("cols");
    reveal_strlit("columns");
    reveal_strlit("rows");
    reveal_strlit("cursor-blink");
    reveal_strlit("cursor_blink");
    reveal_strlit("cursor-blink-interval");
    reveal_strlit("cursor_blink_interval");
    reveal_strlit("bold-is-bright");
    reveal_strlit("bold_is_bright");
    reveal_strlit("bold-text-in-bright");
    reveal_strlit("bold_text_in_bright");
    reveal_strlit("title");
    reveal_strlit("window-title");
    reveal_strlit("window_title");
    reveal_strlit("app-id");
    reveal_strlit("app_id");
    reveal_strlit("term");
    reveal_strlit("term-program");
    reveal_strlit("term_program");
    reveal_strlit("login-shell");
    reveal_strlit("login_shell");
    reveal_strlit("locked-title");
    reveal_strlit("locked_title");
    reveal_strlit("selection-target");
    reveal_strlit("selection_target");
    reveal_strlit("word-delimiters");
    reveal_strlit("word_delimiters");
    reveal_strlit("notify");
    reveal_strlit("resize-delay-ms");
    reveal_strlit("resize_delay_ms");
    reveal_strlit("initial-window-size-pixels");
    reveal_strlit("initial-window-size-chars");
    reveal_strlit("initial-window-mode");
    reveal_strlit("hide-when-typing");
    reveal_strlit("hide_when_typing");
    reveal_strlit("alternate-scroll-mode");
    reveal_strlit("alternate_scroll_mode");
    reveal_strlit("yes");
    reveal_strlit("true");
    reveal_strlit("1");
    assert("locked-title"@.len() != "font-size"@.len());
    assert("locked-title"@.len() != "font_size"@.len());
    assert("locked-title"@.len() != "font"@.len());
    assert("locked-title"@.len() != "scrollback"@.len());
    assert("locked-title"@.len() != "lines"@.len());
    assert("locked-title"@.len() != "shell"@.len());
    assert("locked-title"@.len() != "cols"@.len());
    assert("locked-title"@.len() != "columns"@.len());
    assert("locked-title"@.len() != "rows"@.len());
    assert("locked-title"@[0] != "cursor-blink"@[0]);
    assert("locked-title"@[0] != "cursor_blink"@[0]);
    assert("locked-title"@.len() != "cursor-blink-interval"@.len());
    assert("locked-title"@.len() != "cursor_blink_interval"@.len());
    assert("locked-title"@.len() != "bold-is-bright"@.len());
    assert("locked-title"@.len() != "bold_is_bright"@.len());
    assert("locked-title"@.len() != "bold-text-in-bright"@.len());
    assert("locked-title"@.len() != "bold_text_in_bright"@.len());
    assert("locked-title"@.len() != "title"@.len());
    assert("locked-title"@[0] != "window-title"@[0]);
    assert("locked-title"@[0] != "window_title"@[0]);
    assert("locked-title"@.len() != "app-id"@.len());
    assert("locked-title"@.len() != "app_id"@.len());
    assert("locked-title"@.len() != "term"@.len());
    assert("locked-title"@[0] != "term-program"@[0]);
    assert("locked-title"@[0] != "term_program"@[0]);
    assert("locked-title"@.len() != "login-shell"@.len());
    assert("locked-title"@.len() != "login_shell"@.len());
    assert("cursor-blink"@.len() != "font-size"@.len());
    assert("cursor-blink"@.len() != "font_size"@.len());
    assert("cursor-blink"@.len() != "font"@.len());
    assert("cursor-blink"@.len() != "scrollback"@.len());
    assert("cursor-blink"@.len() != "lines"@.len());
    assert("cursor-blink"@.len() != "shell"@.len());
    assert("cursor-blink"@.len() != "cols"@.len());
    assert("cursor-blink"@.len() != "columns"@.len());
    assert("cursor-blink"@.len() != "rows"@.len());
    assert("bold-is-bright"@.len() != "font-size"@.len());
    assert("bold-is-bright"@.len() != "font_size"@.len());
    assert("bold-is-bright"@.len() != "font"@.len());
    assert("bold-is-bright"@.len() != "scrollback"@.len());
    assert("bold-is-bright"@.len() != "lines"@.len());
    assert("bold-is-bright"@.len() != "shell"@.len());
    assert("bold-is-bright"@.len() != "cols"@.len());
    assert("bold-is-bright"@.len() != "columns"@.len());
    assert("bold-is-bright"@.len() != "rows"@.len());
    assert("bold-is-bright"@.len() != "cursor-blink"@.len());
    assert("bold-is-bright"@.len() != "cursor_blink"@.len());
    assert("bold-is-bright"@.len() != "cursor-blink-interval"@.len());
    assert("bold-is-bright"@.len() != "cursor_blink_interval"@.len());
    assert("bold-text-in-bright"@.len() != "font-size"@.len());
    assert("bold-text-in-bright"@.len() != "font_size"@.len());
    assert("bold-text-in-bright"@.len() != "font"@.len());
    assert("bold-text-in-bright"@.len() != "scrollback"@.len());
    assert("bold-text-in-bright"@.len() != "lines"@.len());
    assert("bold-text-in-bright"@.len() != "shell"@.len());
    assert("bold-text-in-bright"@.len() != "cols"@.len());
    assert("bold-text-in-bright"@.len() != "columns"@.len());
    assert("bold-text-in-bright"@.len() != "rows"@.len());
    assert("bold-text-in-bright"@.len() != "cursor-blink"@.len());
    assert("bold-text-in-bright"@.len() != "cursor_blink"@.len());
    assert("bold-text-in-bright"@.len() != "cursor-blink-interval"@.len());
    assert("bold-text-in-bright"@.len() != "cursor_blink_interval"@.len());
    assert("bold-text-in-bright"@.len() != "bold-is-bright"@.len());
    assert("bold-text-in-bright"@.len() != "bold_is_bright"@.len());
    assert("login-shell"@.len() != "font-size"@.len());
    assert("login-shell"@.len() != "font_size"@.len());
    assert("login-shell"@.len() != "font"@.len());
    assert("login-shell"@.len() != "scrollback"@.len());
    assert("login-shell"@.len() != "lines"@.len());
    assert("login-shell"@.len() != "shell"@.len());
    assert("login-shell"@.len() != "cols"@.len());
    assert("login-shell"@.len() != "columns"@.len());
    assert("login-shell"@.len() != "rows"@.len());
    assert("login-shell"@.len() != "cursor-blink"@.len());
    assert("login-shell"@.len() != "cursor_blink"@.len());
    assert("login-shell"@.len() != "cursor-blink-interval"@.len());
    assert("login-shell"@.len() != "cursor_blink_interval"@.len());
    assert("login-shell"@.len() != "bold-is-bright"@.len());
    assert("login-shell"@.len() != "bold_is_bright"@.len());
    assert("login-shell"@.len() != "bold-text-in-bright"@.len());
    assert("login-shell"@.len() != "bold_text_in_bright"@.len());
    assert("login-shell"@.len() != "title"@.len());
    assert("login-shell"@.len() != "window-title"@.len());
    assert("login-shell"@.len() != "window_title"@.len());
    assert("login-shell"@.len() != "app-id"@.len());
    assert("login-shell"@.len() != "app_id"@.len());
    assert("login-shell"@.len() != "term"@.len());
    assert("login-shell"@.len() != "term-program"@.len());
    assert("login-shell"@.len() != "term_program"@.len());
    assert("hide-when-typing"@.len() != "font-size"@.len());
    assert("hide-when-typing"@.len() != "font_size"@.len());
    assert("hide-when-typing"@.len() != "font"@.len());
    assert("hide-when-typing"@.len() != "scrollback"@.len());
    assert("hide-when-typing"@.len() != "lines"@.len());
    assert("hide-when-typing"@.len() != "shell"@.len());
    assert("hide-when-typing"@.len() != "cols"@.len());
    assert("hide-when-typing"@.len() != "columns"@.len());
    assert("hide-when-typing"@.len() != "rows"@.len());
    assert("hide-when-typing"@.len() != "cursor-blink"@.len());
    assert("hide-when-typing"@.len() != "cursor_blink"@.len());
    assert("hide-when-typing"@.len() != "cursor-blink-interval"@.len());
    assert("hide-when-typing"@.len() != "cursor_blink_interval"@.len());
    assert("hide-when-typing"@.len() != "bold-is-bright"@.len());
    assert("hide-when-typing"@.len() != "bold_is_bright"@.len());
    assert("hide-when-typing"@.len() != "bold-text-in-bright"@.len());
    assert("hide-when-typing"@.len() != "bold_text_in_bright"@.len());
    assert("hide-when-typing"@.len() != "title"@.len());
    assert("hide-when-typing"@.len() != "window-title"@.len());
    assert("hide-when-typing"@.len() != "window_title"@.len());
    assert("hide-when-typing"@.len() != "app-id"@.len());
    assert("hide-when-typing"@.len() != "app_id"@.len());
    assert("hide-when-typing"@.len() != "term"@.len());
    assert("hide-when-typing"@.len() != "term-program"@.len());
    assert("hide-when-typing"@.len() != "term_program"@.len());
    assert("hide-when-typing"@.len() != "login-shell"@.len());
    assert("hide-when-typing"@.len() != "login_shell"@.len());
    assert("hide-when-typing"@.len() != "locked-title"@.len());
    assert("hide-when-typing"@.len() != "locked_title"@.len());
    assert("hide-when-typing"@[0] != "selection-target"@[0]);
    assert("hide-when-typing"@[0] != "selection_target"@[0]);
    assert("hide-when-typing"@.len() != "word-delimiters"@.len());
    assert("hide-when-typing"@.len() != "word_delimiters"@.len());
    assert("hide-when-typing"@.len() != "notify"@.len());
    assert("hide-when-typing"@.len() != "resize-delay-ms"@.len());
    assert("hide-when-typing"@.len() != "resize_delay_ms"@.len());
    assert("hide-when-typing"@.len() != "initial-window-size-pixels"@.len());
    assert("hide-when-typing"@.len() != "initial-window-size-chars"@.len());
    assert("hide-when-typing"@.len() != "initial-window-mode"@.len());
    assert("alternate-scroll-mode"@.len() != "font-size"@.len());
    assert("alternate-scroll-mode"@.len() != "font_size"@.len());
    assert("alternate-scroll-mode"@.len() != "font"@.len());
    assert("alternate-scroll-mode"@.len() != "scrollback"@.len());
    assert("alternate-scroll-mode"@.len() != "lines"@.len());
    assert("alternate-scroll-mode"@.len() != "shell"@.len());
    assert("alternate-scroll-mode"@.len() != "cols"@.len());
    assert("alternate-scroll-mode"@.len() != "columns"@.len());
    assert("alternate-scroll-mode"@.len() != "rows"@.len());
    assert("alternate-scroll-mode"@.len() != "cursor-blink"@.len());
    assert("alternate-scroll-mode"@.len() != "cursor_blink"@.len());
    assert("alternate-scroll-mode"@[0] != "cursor-blink-interval"@[0]);
    assert("alternate-scroll-mode"@[0] != "cursor_blink_interval"@[0]);
    assert("alternate-scroll-mode"@.len() != "bold-is-bright"@.len());
    assert("alternate-scroll-mode"@.len() != "bold_is_bright"@.len());
    assert("alternate-scroll-mode"@.len() != "bold-text-in-bright"@.len());
    assert("alternate-scroll-mode"@.len() != "bold_text_in_bright"@.len());
    assert("alternate-scroll-mode"@.len() != "title"@.len());
    assert("alternate-scroll-mode"@.len() != "window-title"@.len());
    assert("alternate-scroll-mode"@.len() != "window_title"@.len());
    assert("alternate-scroll-mode"@.len() != "app-id"@.len());
    assert("alternate-scroll-mode"@.len() != "app_id"@.len());
    assert("alternate-scroll-mode"@.len() != "term"@.len());
    assert("alternate-scroll-mode"@.len() != "term-program"@.len());
    assert("alternate-scroll-mode"@.len() != "term_program"@.len());
    assert("alternate-scroll-mode"@.len() != "login-shell"@.len());
    assert("alternate-scroll-mode"@.len() != "login_shell"@.len());
    assert("alternate-scroll-mode"@.len() != "locked-title"@.len());
    assert("alternate-scroll-mode"@.len() != "locked_title"@.len());
    assert("alternate-scroll-mode"@.len() != "selection-target"@.len());
    assert("alternate-scroll-mode"@.len() != "selection_target"@.len());
    assert("alternate-scroll-mode"@.len() != "word-delimiters"@.len());
    assert("alternate-scroll-mode"@.len() != "word_delimiters"@.len());
    assert("alternate-scroll-mode"@.len() != "notify"@.len());
    assert("alternate-scroll-mode"@.len() != "resize-delay-ms"@.len());
    assert("alternate-scroll-mode"@.len() != "resize_delay_ms"@.len());
    assert("alternate-scroll-mode"@.len() != "initial-window-size-pixels"@.len());
    assert("alternate-scroll-mode"@.len() != "initial-window-size-chars"@.len());
    assert("alternate-scroll-mode"@.len() != "initial-window-mode"@.len());
    assert("alternate-scroll-mode"@.len() != "hide-when-typing"@.len());
    assert("alternate-scroll-mode"@.len() != "hide_when_typing"@.len());
}

/// The palettes of settings hold 16 and 8 entries.
pub open spec fn palettes_wf(c: SettingsView) -> bool {
    c.palette.len() == 16 && c.dim_palette.len() == 8
}

/// Applying the same `key=value` line twice is the same as applying it once.
pub proof fn law_setting_idempotent(c: SettingsView, key: Seq<char>, v: Seq<char>)
    requires
        palettes_wf(c),
    ensures
        spec_apply_setting(spec_apply_setting(c, key, v).0, key, v) == spec_apply_setting(c, key, v),
{
    let c1 = spec_apply_setting(c, key, v).0;
    match spec_core_key(key) {
        Some(ck) => lemma_core_idempotent(c, ck, v),
        None => match spec_window_key(key) {
            Some(wk) => lemma_window_idempotent(c, wk, v),
            None => match spec_font_scroll_key(key) {
                Some(fk) => {
                    assert(spec_apply_font_scroll(c1, key, v)->0 =~= c1);
                },
                None => match spec_appearance_key(key) {
                    Some(ak) => lemma_appearance_idempotent(c, ak, key, v),
                    None => {},
                },
            },
        },
    }
}

proof fn lemma_core_idempotent(c: SettingsView, ck: CoreKey, v: Seq<char>)
    ensures
        spec_apply_core_key(spec_apply_core_key(c, ck, v), ck, v) == spec_apply_core_key(c, ck, v),
{
    let c1 = spec_apply_core_key(c, ck, v);
    match ck {
        CoreKey::FontSize => {},
        CoreKey::Font => {},
        CoreKey::Scrollback => {},
        CoreKey::Shell => {},
        CoreKey::Cols => {},
        CoreKey::Rows => {},
        CoreKey::CursorBlink => {},
        CoreKey::CursorBlinkInterval => {},
        CoreKey::BoldIsBright => {},
        CoreKey::Title => {},
        CoreKey::AppId => {},
        CoreKey::Term => {},
        CoreKey::LoginShell => {},
        CoreKey::LockedTitle => {},
    }
    assert(spec_apply_core_key(c1, ck, v) =~= c1);
}

proof fn lemma_window_idempotent(c: SettingsView, wk: WindowKey, v: Seq<char>)
    ensures
        spec_apply_window_key(spec_apply_window_key(c, wk, v), wk, v) == spec_apply_window_key(c, wk, v),
{
    let c1 = spec_apply_window_key(c, wk, v);
    match wk {
        WindowKey::SelectionTarget => {},
        WindowKey::WordDelimiters => {},
        WindowKey::Notify => {},
        WindowKey::ResizeDelay => {},
        WindowKey::SizePixels => {},
        WindowKey::SizeChars => {},
        WindowKey::Mode => {},
        WindowKey::HideWhenTyping => {},
        WindowKey::AlternateScroll => {},
        WindowKey::Ignored => {},
    }
    assert(spec_apply_window_key(c1, wk, v) =~= c1);
}

proof fn lemma_appearance_idempotent(c: SettingsView, ak: AppearanceKey, key: Seq<char>, v: Seq<char>)
    requires
        palettes_wf(c),
    ensures
        spec_apply_appearance_key(spec_apply_appearance_key(c, ak, key, v), ak, key, v) == spec_apply_appearance_key(
            c,
            ak,
            key,
            v,
        ),
{
    let c1 = spec_apply_appearance_key(c, ak, key, v);
    match ak {
        AppearanceKey::Dim => {
            let color = to_color(spec_parse_hex_color(v));
            let d = (key[3] as u32) - ('0' as u32);
            if '0' <= key[3] <= '7' && color is Some {
                assert(c.dim_palette.update(d, color).update(d, color) =~= c.dim_palette.update(d, color));
            }
        },
        AppearanceKey::Palette(i) => {
            let color = to_color(spec_parse_hex_color(v));
            if color is Some && i < 16 {
                assert(c.palette.update(i as int, color).update(i as int, color) =~= c.palette.update(i as int, color));
            }
        },
        _ => {},
    }
    assert(spec_apply_appearance_key(c1, ak, key, v) =~= c1);
}

/// Colours that are not set produce no escape sequence: with nothing set
/// there is nothing to send.
pub proof fn law_no_osc_without_colors(colors: ColorSettings)
    requires
        colors.foreground is None,
        colors.background is None,
        colors.cursor is None,
        forall|i: int| 0 <= i < 16 ==> #[trigger] colors.palette@[i] is None,
    ensures
        spec_color_osc(colors) == Seq::<u8>::empty(),
{
    assert forall|n: nat| n <= 16 implies #[trigger] osc_palette(colors.palette@, n) == Seq::<u8>::empty() by {
        lemma_osc_palette_empty(colors.palette@, n);
    }
    assert(spec_color_osc(colors) =~= Seq::<u8>::empty());
}

proof fn lemma_osc_palette_empty(p: Seq<Option<Color>>, n: nat)
    requires
        n <= p.len(),
        forall|i: int| 0 <= i < n ==> #[trigger] p[i] is None,
    ensures
        osc_palette(p, n) == Seq::<u8>::empty(),
    decreases n,
{
    if n > 0 {
        lemma_osc_palette_empty(p, (n - 1) as nat);
        assert(osc_palette(p, n) =~= Seq::<u8>::empty());
    }
}

} // verus!
