use horseshoe::config::bindings::{
    binding_key_to_keysym, parse_binding_action, parse_binding_combo, BindingKey, Bindings, KeyAction,
};
use horseshoe::config::colors::{parse_foot_cursor_color, parse_hex_color, parse_palette_key};
use horseshoe::config::parse_size_u32;


    #[test]
    fn test_parse_binding_combo_ctrl_shift_c() {
        let bk = parse_binding_combo("Control+Shift+c").expect("valid combo");
        assert_eq!(bk.keysym, 0x0063);
        assert!(bk.ctrl);
        assert!(bk.shift);
    }


    #[test]
    fn test_parse_binding_combo_f11() {
        let bk = parse_binding_combo("F11").expect("valid combo");
        assert_eq!(bk.keysym, 0xffc8);
        assert!(!bk.ctrl);
        assert!(!bk.shift);
    }


    #[test]
    fn test_parse_binding_combo_shift_insert() {
        let bk = parse_binding_combo("Shift+Insert").expect("valid combo");
        assert_eq!(bk.keysym, 0xff63);
        assert!(!bk.ctrl);
        assert!(bk.shift);
    }


    #[test]
    fn test_parse_binding_combo_ctrl_minus() {
        let bk = parse_binding_combo("Control+-").expect("valid combo");
        assert_eq!(bk.keysym, 0x002d);
        assert!(bk.ctrl);
        assert!(!bk.shift);
    }


    #[test]
    fn test_parse_binding_combo_unknown_key() {
        assert!(parse_binding_combo("Control+Shift+NONEXISTENT").is_none());
    }


    #[test]
    fn test_parse_binding_action_names() {
        assert_eq!(
            parse_binding_action("clipboard-copy"),
            Some(KeyAction::Copy)
        );
        assert_eq!(
            parse_binding_action("clipboard-paste"),
            Some(KeyAction::Paste)
        );
        assert_eq!(
            parse_binding_action("primary-paste"),
            Some(KeyAction::PrimaryPaste)
        );
        assert_eq!(
            parse_binding_action("fullscreen"),
            Some(KeyAction::ToggleFullscreen)
        );
        assert_eq!(
            parse_binding_action("search-start"),
            Some(KeyAction::Search)
        );
        assert_eq!(
            parse_binding_action("font-increase"),
            Some(KeyAction::FontSizeUp)
        );
        assert_eq!(
            parse_binding_action("font-decrease"),
            Some(KeyAction::FontSizeDown)
        );
        assert_eq!(
            parse_binding_action("font-reset"),
            Some(KeyAction::FontSizeReset)
        );
        assert_eq!(
            parse_binding_action("spawn-terminal"),
            Some(KeyAction::SpawnTerminal)
        );
        assert_eq!(parse_binding_action("noop"), Some(KeyAction::Noop));
        assert!(parse_binding_action("unknown-action").is_none());
    }


    #[test]
    fn test_bindings_noop_returns_none() {
        let mut b = Bindings::default();
        b.set(
            KeyAction::Noop,
            BindingKey {
                keysym: 0x0063,
                ctrl: true,
                shift: true,
            },
        );
        assert!(b.lookup(0x0063, true, true).is_none());
    }


    #[test]
    fn test_bindings_set_replaces_existing() {
        let mut b = Bindings::default();
        assert_eq!(b.lookup(0x0063, true, true), Some(KeyAction::Copy));
        b.set(
            KeyAction::Copy,
            BindingKey {
                keysym: 0x0079,
                ctrl: true,
                shift: true,
            },
        );
        assert!(b.lookup(0x0063, true, true).is_none());
        assert_eq!(b.lookup(0x0079, true, true), Some(KeyAction::Copy));
    }


    #[test]
    fn test_bindings_unbind_action() {
        let mut b = Bindings::default();
        assert_eq!(b.lookup(0x0063, true, true), Some(KeyAction::Copy));
        b.unbind_action(KeyAction::Copy);
        assert!(b.lookup(0x0063, true, true).is_none());
    }


    #[test]
    fn test_binding_key_to_keysym_single_chars() {
        assert_eq!(binding_key_to_keysym("a"), Some(0x0061));
        assert_eq!(binding_key_to_keysym("z"), Some(0x007a));
        assert_eq!(binding_key_to_keysym("A"), Some(0x0061));
        assert_eq!(binding_key_to_keysym("0"), Some(0x0030));
        assert_eq!(binding_key_to_keysym("-"), Some(0x002d));
        assert_eq!(binding_key_to_keysym("="), Some(0x003d));
    }


    #[test]
    fn test_binding_key_to_keysym_named_keys() {
        assert_eq!(binding_key_to_keysym("F1"), Some(0xffbe));
        assert_eq!(binding_key_to_keysym("F12"), Some(0xffc9));
        assert_eq!(binding_key_to_keysym("Insert"), Some(0xff63));
        assert_eq!(binding_key_to_keysym("Delete"), Some(0xffff));
        assert_eq!(binding_key_to_keysym("Home"), Some(0xff50));
        assert_eq!(binding_key_to_keysym("End"), Some(0xff57));
        assert_eq!(binding_key_to_keysym("Page_Up"), Some(0xff55));
        assert_eq!(binding_key_to_keysym("Page_Down"), Some(0xff56));
        assert_eq!(binding_key_to_keysym("Return"), Some(0xff0d));
        assert_eq!(binding_key_to_keysym("Escape"), Some(0xff1b));
        assert_eq!(binding_key_to_keysym("Space"), Some(0x0020));
    }


    #[test]
    fn test_bindings_lookup_uppercase_normalization() {
        let b = Bindings::default();
        assert_eq!(b.lookup(0x0043, true, true), Some(KeyAction::Copy));
        assert_eq!(b.lookup(0x0056, true, true), Some(KeyAction::Paste));
        assert_eq!(b.lookup(0x0046, true, true), Some(KeyAction::Search));
        assert_eq!(b.lookup(0x004E, true, true), Some(KeyAction::SpawnTerminal));
        assert!(b.lookup(0x0041, true, true).is_none());
        assert!(b.lookup(0x005A, true, true).is_none());
    }


    #[test]
    fn test_parse_binding_combo_ctrl_shorthand() {
        let bk = parse_binding_combo("Ctrl+Shift+c").expect("ctrl shorthand");
        assert!(bk.ctrl);
        assert!(bk.shift);
        assert_eq!(bk.keysym, 0x0063);
    }


    #[test]
    fn test_parse_binding_combo_unknown_modifier_ignored() {
        let bk = parse_binding_combo("Super+Alt+Control+c").expect("unknown mod ignored");
        assert!(bk.ctrl);
        assert!(!bk.shift);
        assert_eq!(bk.keysym, 0x0063);
    }


    #[test]
    fn test_parse_hex_color() {
        let c_hash = parse_hex_color("#ff8040").expect("valid color");
        assert_eq!(c_hash.r, 0xff);
        assert_eq!(c_hash.g, 0x80);
        assert_eq!(c_hash.b, 0x40);

        let c_bare = parse_hex_color("00ff00").expect("valid color without #");
        assert_eq!(c_bare.r, 0);
        assert_eq!(c_bare.g, 255);
        assert_eq!(c_bare.b, 0);

        assert!(parse_hex_color("xyz").is_none());
        assert!(parse_hex_color("#fff").is_none());
    }


    #[test]
    fn test_parse_hex_color_lowercase() {
        let color = parse_hex_color("#aabbcc").expect("lowercase hex should parse");
        assert_eq!(color.r, 0xAA);
        assert_eq!(color.g, 0xBB);
        assert_eq!(color.b, 0xCC);
    }


    #[test]
    fn test_parse_hex_color_invalid_inputs() {
        assert!(parse_hex_color("").is_none(), "empty string");
        assert!(parse_hex_color("#").is_none(), "bare hash");
        assert!(
            parse_hex_color("#fff").is_none(),
            "3-digit shorthand not supported"
        );
        assert!(parse_hex_color("#GGHHII").is_none(), "non-hex characters");
        assert!(parse_hex_color("#1234567").is_none(), "7 digits after hash");
        assert!(parse_hex_color("zzzzzz").is_none(), "non-hex without hash");
    }


    #[test]
    fn test_parse_palette_key_variants() {
        assert_eq!(parse_palette_key("color0"), Some(0));
        assert_eq!(parse_palette_key("color15"), Some(15));
        assert_eq!(parse_palette_key("color16"), None);
        assert_eq!(parse_palette_key("regular0"), Some(0));
        assert_eq!(parse_palette_key("regular7"), Some(7));
        assert_eq!(parse_palette_key("regular8"), None);
        assert_eq!(parse_palette_key("bright0"), Some(8));
        assert_eq!(parse_palette_key("bright7"), Some(15));
        assert_eq!(parse_palette_key("bright8"), None);
        assert_eq!(parse_palette_key("0"), Some(0));
        assert_eq!(parse_palette_key("15"), Some(15));
        assert_eq!(parse_palette_key("unknown"), None);
    }


    #[test]
    fn test_parse_foot_cursor_color() {
        let c_dual = parse_foot_cursor_color("002b36 93a1a1").expect("dual");
        assert_eq!(c_dual.r, 0x93);
        let c_single = parse_foot_cursor_color("93a1a1").expect("single");
        assert_eq!(c_single.r, 0x93);
        assert!(parse_foot_cursor_color("").is_none());
    }


#[test]
fn test_parse_size_u32_valid() {
    assert_eq!(parse_size_u32("100x200"), Some((100, 200)));
    assert_eq!(parse_size_u32("1920x1080"), Some((1920, 1080)));
}


#[test]
fn test_parse_size_u32_invalid() {
    assert!(parse_size_u32("abc").is_none());
    assert!(parse_size_u32("100").is_none());
    assert!(parse_size_u32("x200").is_none());
    assert!(parse_size_u32("100x").is_none());
    assert!(parse_size_u32("").is_none());
}


#[test]
fn test_parse_size_u32_zero_rejected() {
    assert!(parse_size_u32("0x200").is_none());
    assert!(parse_size_u32("100x0").is_none());
    assert!(parse_size_u32("0x0").is_none());
}

