use horseshoe::config::bindings::KeyAction;
use horseshoe::config::colors::Color;
use horseshoe::config::settings::{
    apply_appearance, apply_cli, apply_core, apply_font_scroll, apply_override, apply_setting, apply_window,
    color_osc_sequences, command_from_args, config_line_errors, parse_ini, parse_override, CliOptions, Settings,
};
use horseshoe::config::types::{SelectionTarget, WindowMode};

fn parsed(text: &str) -> Settings {
    parse_ini(text).0
}

#[test]
fn settings_defaults() {
    let s = Settings::default();
    assert_eq!(s.terminal.scrollback, 10000);
    assert!(s.terminal.cursor_blink);
    assert!(!s.input.bold_is_bright);
    assert_eq!(s.window.title, "hs");
    assert_eq!(s.window.app_id, "hs");
    assert_eq!(s.window.resize_delay_ms, 100);
    assert_eq!(s.terminal.cursor_blink_interval_ms, 500);
    assert_eq!(s.input.selection_target, SelectionTarget::Primary);
    assert!(s.input.alternate_scroll_mode);
    assert!(s.colors.palette.iter().all(|c| c.is_none()));
}

#[test]
fn settings_parse_values() {
    let input = "\n# comment\nfont-size = 14.0\nscrollback = 5000\nshell = /bin/zsh\ncursor-blink = false\nbold-is-bright = false\ncols = 120\nrows = 40\n";
    let s = parsed(input);
    assert_eq!(s.terminal.scrollback, 5000);
    assert_eq!(s.terminal.shell.as_deref(), Some("/bin/zsh"));
    assert!(!s.terminal.cursor_blink);
    assert!(!s.input.bold_is_bright);
    assert_eq!(s.window.initial_cols, 120);
    assert_eq!(s.window.initial_rows, 40);
}

#[test]
fn settings_parse_colors() {
    let input = "\nforeground = #d4be98\nbackground = #282828\ncursor-color = #d4be98\ncolor0 = #282828\ncolor1 = #ea6962\ncolor15 = #d4be98\n";
    let s = parsed(input);
    let fg = s.colors.foreground.expect("foreground");
    assert_eq!((fg.r, fg.g, fg.b), (0xd4, 0xbe, 0x98));
    assert_eq!(s.colors.background.expect("background").r, 0x28);
    assert_eq!(s.colors.palette[0].expect("color0").r, 0x28);
    assert_eq!(s.colors.palette[1].expect("color1").r, 0xea);
    assert_eq!(s.colors.palette[15].expect("color15").r, 0xd4);
    assert!(s.colors.palette[2].is_none());
}

#[test]
fn settings_title_and_app_id() {
    assert_eq!(parsed("title = My Terminal").window.title, "My Terminal");
    assert_eq!(parsed("window-title = Custom").window.title, "Custom");
    assert_eq!(parsed("app-id = my-term").window.app_id, "my-term");
    assert_eq!(parsed("app_id = other").window.app_id, "other");
    assert_eq!(parsed("title = ").window.title, "hs");
    assert_eq!(parsed("app-id = ").window.app_id, "hs");
}

#[test]
fn settings_term_keys() {
    assert_eq!(parsed("term = foot").terminal.term.as_deref(), Some("foot"));
    assert_eq!(parsed("term-program = xterm-256color").terminal.term.as_deref(), Some("xterm-256color"));
}

#[test]
fn settings_padding_rules() {
    assert_eq!(parsed("padding = 200").window.padding, 100);
    assert_eq!(parsed("padding = 10").window.padding, 10);
    assert_eq!(parsed("padding = 0").window.padding, 0);
    assert_eq!(parsed("pad = 12x8 center").window.padding, 12);
    assert_eq!(parsed("pad = abc").window.padding, 0);
}

#[test]
fn settings_blink_interval_clamped() {
    assert_eq!(parsed("cursor-blink-interval = 50").terminal.cursor_blink_interval_ms, 100);
    assert_eq!(parsed("cursor-blink-interval = 5000").terminal.cursor_blink_interval_ms, 2000);
    assert_eq!(parsed("cursor-blink-interval = 600").terminal.cursor_blink_interval_ms, 600);
    assert_eq!(parsed("cursor-blink-interval = -5").terminal.cursor_blink_interval_ms, 500);
}

#[test]
fn settings_foot_font_family() {
    let s = parsed("font=JetBrains Mono:size=11");
    assert_eq!(s.font.family.as_deref(), Some("JetBrains Mono"));
    let s2 = parsed("font-bold=Iosevka Heavy:size=11");
    assert_eq!(s2.font.bold.as_deref(), Some("Iosevka Heavy"));
}

#[test]
fn settings_foot_palette_names() {
    let s = parsed("[colors]\nregular0=000000\nregular7=ffffff\nbright0=808080\nbright7=fefefe\ndim3=123456\n");
    assert_eq!(s.colors.palette[0].expect("regular0").r, 0);
    assert_eq!(s.colors.palette[7].expect("regular7").r, 0xff);
    assert_eq!(s.colors.palette[8].expect("bright0").r, 0x80);
    assert_eq!(s.colors.palette[15].expect("bright7").r, 0xfe);
    assert_eq!(s.colors.dim_palette[3].expect("dim3").r, 0x12);
}

#[test]
fn settings_foot_cursor_dual_value() {
    let c = parsed("cursor= 002b36 93a1a1").colors.cursor.expect("cursor");
    assert_eq!((c.r, c.g, c.b), (0x93, 0xa1, 0xa1));
}

#[test]
fn settings_lines_and_bold_bright() {
    assert_eq!(parsed("lines=50000").terminal.scrollback, 50000);
    assert!(parsed("bold-text-in-bright=yes").input.bold_is_bright);
    assert!(!parsed("bold-text-in-bright=no").input.bold_is_bright);
}

#[test]
fn settings_window_keys() {
    let s = parsed("selection-target=clipboard\nresize-delay-ms=5000\ninitial-window-size-pixels=800x600\ninitial-window-size-chars=100000x24\ninitial-window-mode=maximized\nhide-when-typing=yes\nalternate-scroll-mode=no\nword-delimiters=,;\nnotify=notify-send bell\n");
    assert_eq!(s.input.selection_target, SelectionTarget::Clipboard);
    assert_eq!(s.window.resize_delay_ms, 1000);
    assert_eq!(s.window.initial_size_pixels, Some((800, 600)));
    assert_eq!(s.window.initial_size_chars, Some((u16::MAX, 24)));
    assert_eq!(s.window.initial_window_mode, WindowMode::Maximized);
    assert!(s.input.hide_when_typing);
    assert!(!s.input.alternate_scroll_mode);
    assert_eq!(s.input.word_delimiters.as_deref(), Some(",;"));
    assert_eq!(s.terminal.notify_command.as_deref(), Some("notify-send bell"));
}

#[test]
fn settings_selection_target_values() {
    assert_eq!(parsed("selection-target=none").input.selection_target, SelectionTarget::Neither);
    assert_eq!(parsed("selection-target=both").input.selection_target, SelectionTarget::Both);
    assert_eq!(parsed("selection-target=bogus").input.selection_target, SelectionTarget::Primary);
}

#[test]
fn settings_key_bindings_section() {
    let s = parsed("[key-bindings]\nclipboard-copy=Control+Shift+y\nsearch-start=none\n");
    assert_eq!(s.bindings.lookup(0x0079, true, true), Some(KeyAction::Copy));
    assert!(s.bindings.lookup(0x0063, true, true).is_none());
    assert!(s.bindings.lookup(0x0066, true, true).is_none());
}

#[test]
fn settings_apply_core_reports_keys() {
    let mut s = Settings::default();
    assert!(apply_core(&mut s, "rows", "30"));
    assert_eq!(s.window.initial_rows, 30);
    assert!(apply_core(&mut s, "font-size", "12"));
    assert!(!apply_core(&mut s, "padding", "3"));
    assert_eq!(s.window.padding, 0);
    assert!(apply_core(&mut s, "login-shell", "1"));
    assert!(!s.terminal.login_shell);
    assert!(apply_core(&mut s, "login_shell", "yes"));
    assert!(s.terminal.login_shell);
    assert!(apply_core(&mut s, "cols", "70000"));
    assert_eq!(s.window.initial_cols, 0);
}

#[test]
fn settings_apply_window_ignored_keys() {
    let mut s = Settings::default();
    assert!(apply_window(&mut s, "dpi-aware", "yes"));
    assert!(apply_window(&mut s, "keybinding", "x"));
    assert!(!apply_window(&mut s, "unknown-thing", "x"));
    assert_eq!(s.window.title, "hs");
}

#[test]
fn settings_apply_font_scroll_and_appearance() {
    let mut s = Settings::default();
    assert!(apply_font_scroll(&mut s, "multiplier", "3.5"));
    assert!(apply_font_scroll(&mut s, "font-italic", "Foo:size=3"));
    assert_eq!(s.font.italic.as_deref(), Some("Foo"));
    assert!(apply_appearance(&mut s, "selection-background", "#102030"));
    assert_eq!(s.colors.selection_bg.expect("sel bg").g, 0x20);
    assert!(apply_appearance(&mut s, "dim9", "#102030"));
    assert!(s.colors.dim_palette.iter().all(|c| c.is_none()));
    assert!(!apply_appearance(&mut s, "colour1", "#102030"));
    assert!(apply_appearance(&mut s, "urls", "whatever"));
}

#[test]
fn settings_unknown_key_leaves_settings() {
    let mut s = Settings::default();
    assert!(!apply_setting(&mut s, "no-such-key", "1"));
    assert_eq!(s.window.title, "hs");
    assert!(apply_setting(&mut s, "title", "x"));
    assert_eq!(s.window.title, "x");
}

#[test]
fn settings_duplicate_setting_is_idempotent() {
    let mut once = Settings::default();
    let _ = apply_setting(&mut once, "pad", "7x7");
    let mut twice = Settings::default();
    let _ = apply_setting(&mut twice, "pad", "7x7");
    let _ = apply_setting(&mut twice, "pad", "7x7");
    assert_eq!(once.window.padding, twice.window.padding);
    assert_eq!(twice.window.padding, 7);
}

#[test]
fn settings_parse_override_forms() {
    assert_eq!(parse_override("colors.Foreground = #ff0000"), Some(("foreground".to_string(), "#ff0000".to_string())));
    assert_eq!(parse_override("Title=A=B"), Some(("title".to_string(), "A=B".to_string())));
    assert_eq!(parse_override("no-separator"), None);
}

#[test]
fn settings_apply_override() {
    let mut s = Settings::default();
    assert!(apply_override(&mut s, "main.title=Override"));
    assert_eq!(s.window.title, "Override");
    assert!(!apply_override(&mut s, "title"));
    assert_eq!(s.window.title, "Override");
}

#[test]
fn settings_config_line_errors() {
    let text = "# comment\n[main]\nfont=Mono\nbroken line\n\n  also broken  \nkey=value\n";
    assert_eq!(config_line_errors(text), vec![4, 6]);
    assert!(config_line_errors("").is_empty());
}

#[test]
fn settings_color_osc_sequences() {
    let mut s = Settings::default();
    s.colors.foreground = Some(Color { r: 0xff, g: 0x00, b: 0x00 });
    s.colors.palette[0] = Some(Color { r: 0x11, g: 0x22, b: 0x33 });
    s.colors.palette[12] = Some(Color { r: 0xab, g: 0xcd, b: 0xef });
    let text = String::from_utf8(color_osc_sequences(&s.colors)).expect("valid utf8");
    assert_eq!(text, "\x1b]10;#ff0000\x1b\\\x1b]4;0;#112233\x1b\\\x1b]4;12;#abcdef\x1b\\");
    assert!(color_osc_sequences(&Settings::default().colors).is_empty());
}

#[test]
fn settings_cli_precedence() {
    let mut s = parsed("title = FromFile\ncols = 80");
    let cli = CliOptions {
        font: Some("Fira Code:size=10".to_string()),
        title: Some("FromCli".to_string()),
        app_id: None,
        term: Some("foot".to_string()),
        login_shell: true,
        hold: false,
        maximized: true,
        fullscreen: true,
        working_directory: None,
        window_size_pixels: Some("640x480".to_string()),
        window_size_chars: Some("0x10".to_string()),
        overrides: vec!["title=FromOverride".to_string()],
    };
    apply_cli(&mut s, cli);
    assert_eq!(s.window.title, "FromOverride");
    assert_eq!(s.font.family.as_deref(), Some("Fira Code"));
    assert_eq!(s.terminal.term.as_deref(), Some("foot"));
    assert!(s.terminal.login_shell);
    assert_eq!(s.window.initial_window_mode, WindowMode::Fullscreen);
    assert_eq!(s.window.initial_size_pixels, Some((640, 480)));
    assert_eq!(s.window.initial_size_chars, None);
    assert_eq!(s.window.initial_cols, 80);
}

#[test]
fn settings_command_from_args() {
    assert_eq!(command_from_args(vec!["-e".to_string(), "htop".to_string()]), Some(vec!["htop".to_string()]));
    assert_eq!(command_from_args(vec!["vim".to_string(), "-e".to_string()]), Some(vec!["vim".to_string(), "-e".to_string()]));
    assert_eq!(command_from_args(vec!["-e".to_string()]), None);
    assert_eq!(command_from_args(Vec::new()), None);
}
