use horseshoe::terminal::render::{
    default_cell_style, resolve_color, CellStyleAttrs, RenderColors, STYLE_COLOR_NONE, STYLE_COLOR_PALETTE,
    STYLE_COLOR_RGB,
};


#[test]
fn test_resolve_color_rgb() {
    let colors = RenderColors {
        foreground: (255, 255, 255),
        background: (0, 0, 0),
        cursor: None,
        palette: [(0, 0, 0); 256],
    };
    let result = resolve_color(
        STYLE_COLOR_RGB,
        0,
        (10, 20, 30),
        &colors,
        (0, 0, 0),
    );
    assert_eq!(result, (10, 20, 30));
}


#[test]
fn test_resolve_color_palette() {
    let mut palette = [(0u8, 0u8, 0u8); 256];
    if let Some(entry) = palette.get_mut(42) {
        *entry = (100, 150, 200);
    }
    let colors = RenderColors {
        foreground: (255, 255, 255),
        background: (0, 0, 0),
        cursor: None,
        palette,
    };
    let result = resolve_color(
        STYLE_COLOR_PALETTE,
        42,
        (0, 0, 0),
        &colors,
        (0, 0, 0),
    );
    assert_eq!(result, (100, 150, 200));
}


#[test]
fn test_resolve_color_none_returns_fallback() {
    let colors = RenderColors {
        foreground: (255, 255, 255),
        background: (0, 0, 0),
        cursor: None,
        palette: [(0, 0, 0); 256],
    };
    let result = resolve_color(
        STYLE_COLOR_NONE,
        0,
        (0, 0, 0),
        &colors,
        (11, 22, 33),
    );
    assert_eq!(result, (11, 22, 33));
}


#[test]
fn test_cell_style_attrs_zero() {
    let a = CellStyleAttrs::from_bits(0);
    assert!(!a.bold());
    assert!(!a.italic());
    assert!(!a.faint());
    assert!(!a.blink());
    assert!(!a.inverse());
    assert!(!a.invisible());
    assert!(!a.strikethrough());
    assert!(!a.overline());
}


#[test]
fn test_cell_style_attrs_all_set() {
    let a = CellStyleAttrs::from_bits(0xFF);
    assert!(a.bold());
    assert!(a.italic());
    assert!(a.faint());
    assert!(a.blink());
    assert!(a.inverse());
    assert!(a.invisible());
    assert!(a.strikethrough());
    assert!(a.overline());
}


#[test]
fn test_cell_style_attrs_individual_bits() {
    let cases: &[(u8, &str)] = &[
        (CellStyleAttrs::BOLD, "bold"),
        (CellStyleAttrs::ITALIC, "italic"),
        (CellStyleAttrs::FAINT, "faint"),
        (CellStyleAttrs::BLINK, "blink"),
        (CellStyleAttrs::INVERSE, "inverse"),
        (CellStyleAttrs::INVISIBLE, "invisible"),
        (CellStyleAttrs::STRIKETHROUGH, "strikethrough"),
        (CellStyleAttrs::OVERLINE, "overline"),
    ];
    for &(bit, name) in cases {
        let a = CellStyleAttrs::from_bits(bit);
        let getters: [(bool, &str); 8] = [
            (a.bold(), "bold"),
            (a.italic(), "italic"),
            (a.faint(), "faint"),
            (a.blink(), "blink"),
            (a.inverse(), "inverse"),
            (a.invisible(), "invisible"),
            (a.strikethrough(), "strikethrough"),
            (a.overline(), "overline"),
        ];
        for (val, getter_name) in getters {
            if getter_name == name {
                assert!(val, "{name} should be true when bit {bit:#04x} is set");
            } else {
                assert!(
                    !val,
                    "{getter_name} should be false when only {name} is set"
                );
            }
        }
    }
}


#[test]
fn test_default_cell_style_all_fields() {
    let s = default_cell_style();
    assert_eq!(s.fg_tag, STYLE_COLOR_NONE);
    assert_eq!(s.bg_tag, STYLE_COLOR_NONE);
    assert_eq!(
        s.underline_color_tag,
        STYLE_COLOR_NONE
    );
    assert!(!s.attrs.bold());
    assert!(!s.attrs.italic());
    assert_eq!(s.underline, 0);
}


#[test]
fn test_resolve_color_palette_boundary_indices() {
    let mut palette = [(0u8, 0u8, 0u8); 256];
    palette[0] = (10, 20, 30);
    palette[15] = (200, 100, 50);
    palette[255] = (1, 2, 3);
    let colors = RenderColors {
        foreground: (255, 255, 255),
        background: (0, 0, 0),
        cursor: None,
        palette,
    };
    assert_eq!(
        resolve_color(
            STYLE_COLOR_PALETTE,
            0,
            (0, 0, 0),
            &colors,
            (255, 255, 255)
        ),
        (10, 20, 30)
    );
    assert_eq!(
        resolve_color(
            STYLE_COLOR_PALETTE,
            255,
            (0, 0, 0),
            &colors,
            (0, 0, 0)
        ),
        (1, 2, 3)
    );
}


#[test]
fn test_cell_style_attrs_all_bit_patterns() {
    for bits in 0u8..=0xFF {
        let attrs = CellStyleAttrs::from_bits(bits);
        assert_eq!(attrs.bold(), bits & CellStyleAttrs::BOLD != 0);
        assert_eq!(attrs.italic(), bits & CellStyleAttrs::ITALIC != 0);
        assert_eq!(attrs.faint(), bits & CellStyleAttrs::FAINT != 0);
        assert_eq!(
            attrs.strikethrough(),
            bits & CellStyleAttrs::STRIKETHROUGH != 0
        );
    }
}


#[test]
fn test_cell_style_attrs_round_trip_each_bit() {
    let bit_names: &[(u8, &str)] = &[
        (CellStyleAttrs::BOLD, "bold"),
        (CellStyleAttrs::ITALIC, "italic"),
        (CellStyleAttrs::FAINT, "faint"),
        (CellStyleAttrs::BLINK, "blink"),
        (CellStyleAttrs::INVERSE, "inverse"),
        (CellStyleAttrs::INVISIBLE, "invisible"),
        (CellStyleAttrs::STRIKETHROUGH, "strikethrough"),
        (CellStyleAttrs::OVERLINE, "overline"),
    ];
    for &(bit, name) in bit_names {
        let set = CellStyleAttrs::from_bits(bit);
        let empty = CellStyleAttrs::from_bits(0);
        let others = CellStyleAttrs::from_bits(!bit);

        // Helper to get the right getter result
        let get = |a: CellStyleAttrs, b: u8| -> bool {
            match b {
                CellStyleAttrs::BOLD => a.bold(),
                CellStyleAttrs::ITALIC => a.italic(),
                CellStyleAttrs::FAINT => a.faint(),
                CellStyleAttrs::BLINK => a.blink(),
                CellStyleAttrs::INVERSE => a.inverse(),
                CellStyleAttrs::INVISIBLE => a.invisible(),
                CellStyleAttrs::STRIKETHROUGH => a.strikethrough(),
                CellStyleAttrs::OVERLINE => a.overline(),
                _ => unreachable!(),
            }
        };

        assert!(get(set, bit), "{name} should be true when its bit is set");
        assert!(
            !get(empty, bit),
            "{name} should be false when no bits are set"
        );
        assert!(
            !get(others, bit),
            "{name} should be false when only other bits are set"
        );
    }
}


#[test]
fn test_resolve_color_unknown_tag() {
    let colors = RenderColors {
        foreground: (255, 255, 255),
        background: (0, 0, 0),
        cursor: None,
        palette: [(0, 0, 0); 256],
    };
    // An unknown tag value (e.g. 9999) should return the fallback
    let result = resolve_color(9999, 0, (10, 20, 30), &colors, (42, 43, 44));
    assert_eq!(result, (42, 43, 44));
}


#[test]
fn test_colors_all_256_palette() {
    let mut palette = [(0u8, 0u8, 0u8); 256];
    for (i, entry) in palette.iter_mut().enumerate() {
        let v = u8::try_from(i).unwrap_or(255);
        *entry = (v, v, v);
    }
    let colors = RenderColors {
        foreground: (255, 255, 255),
        background: (0, 0, 0),
        cursor: None,
        palette,
    };
    for i in 0..=255u8 {
        let result = resolve_color(
            STYLE_COLOR_PALETTE,
            i,
            (0, 0, 0),
            &colors,
            (0, 0, 0),
        );
        assert_eq!(result, (i, i, i), "palette[{i}] should resolve correctly");
    }
}

