use horseshoe::terminal::render::{
    convert_style, convert_style_color, CellStyleAttrs, PaletteIndex, RgbColor, Style, StyleColor, Underline,
    STYLE_COLOR_NONE, STYLE_COLOR_PALETTE, STYLE_COLOR_RGB,
};

#[test]
fn test_convert_style_color_none() {
    let (tag, palette, rgb) = convert_style_color(StyleColor::Unset);
    assert_eq!(tag, STYLE_COLOR_NONE);
    assert_eq!(palette, 0);
    assert_eq!(rgb, (0, 0, 0));
}

#[test]
fn test_convert_style_color_palette() {
    let (tag, palette, rgb) = convert_style_color(StyleColor::Palette(PaletteIndex(42)));
    assert_eq!(tag, STYLE_COLOR_PALETTE);
    assert_eq!(palette, 42);
    assert_eq!(rgb, (0, 0, 0));
}

#[test]
fn test_convert_style_color_palette_zero() {
    let (tag, idx, _) = convert_style_color(StyleColor::Palette(PaletteIndex(0)));
    assert_eq!(tag, STYLE_COLOR_PALETTE);
    assert_eq!(idx, 0);
}

#[test]
fn test_convert_style_color_palette_max() {
    let (tag, idx, _) = convert_style_color(StyleColor::Palette(PaletteIndex(255)));
    assert_eq!(tag, STYLE_COLOR_PALETTE);
    assert_eq!(idx, 255);
}

#[test]
fn test_convert_style_color_rgb() {
    let (tag, palette, rgb) = convert_style_color(StyleColor::Rgb(RgbColor { r: 10, g: 20, b: 30 }));
    assert_eq!(tag, STYLE_COLOR_RGB);
    assert_eq!(palette, 0);
    assert_eq!(rgb, (10, 20, 30));
}

#[test]
fn test_convert_style_color_rgb_black() {
    let (_, _, color) = convert_style_color(StyleColor::Rgb(RgbColor { r: 0, g: 0, b: 0 }));
    assert_eq!(color, (0, 0, 0));
}

#[test]
fn test_convert_style_color_rgb_white() {
    let (_, _, color) = convert_style_color(StyleColor::Rgb(RgbColor { r: 255, g: 255, b: 255 }));
    assert_eq!(color, (255, 255, 255));
}

/// A style with all attributes off and no colors.
fn make_default_style() -> Style {
    Style {
        fg_color: StyleColor::Unset,
        bg_color: StyleColor::Unset,
        underline_color: StyleColor::Unset,
        bold: false,
        italic: false,
        faint: false,
        blink: false,
        inverse: false,
        invisible: false,
        strikethrough: false,
        overline: false,
        underline: Underline::Off,
    }
}

#[test]
fn test_convert_style_default() {
    let style = make_default_style();
    let cs = convert_style(&style);
    assert_eq!(cs.fg_tag, STYLE_COLOR_NONE);
    assert_eq!(cs.bg_tag, STYLE_COLOR_NONE);
    assert_eq!(cs.underline_color_tag, STYLE_COLOR_NONE);
    assert!(!cs.attrs.bold());
    assert!(!cs.attrs.italic());
    assert!(!cs.attrs.faint());
    assert!(!cs.attrs.blink());
    assert!(!cs.attrs.inverse());
    assert!(!cs.attrs.invisible());
    assert!(!cs.attrs.strikethrough());
    assert!(!cs.attrs.overline());
    assert_eq!(cs.underline, 0);
}

#[test]
fn test_convert_style_all_attrs_set() {
    let style = Style {
        fg_color: StyleColor::Unset,
        bg_color: StyleColor::Unset,
        underline_color: StyleColor::Unset,
        bold: true,
        italic: true,
        faint: true,
        blink: true,
        inverse: true,
        invisible: true,
        strikethrough: true,
        overline: true,
        underline: Underline::Off,
    };
    let cs = convert_style(&style);
    assert!(cs.attrs.bold());
    assert!(cs.attrs.italic());
    assert!(cs.attrs.faint());
    assert!(cs.attrs.blink());
    assert!(cs.attrs.inverse());
    assert!(cs.attrs.invisible());
    assert!(cs.attrs.strikethrough());
    assert!(cs.attrs.overline());
}

#[test]
fn test_convert_style_individual_attrs() {
    let write_fns: &[(&str, fn(&mut Style))] = &[
        ("bold", |s| s.bold = true),
        ("italic", |s| s.italic = true),
        ("faint", |s| s.faint = true),
        ("blink", |s| s.blink = true),
        ("inverse", |s| s.inverse = true),
        ("invisible", |s| s.invisible = true),
        ("strikethrough", |s| s.strikethrough = true),
        ("overline", |s| s.overline = true),
    ];
    let read_fns: &[(&str, fn(&CellStyleAttrs) -> bool)] = &[
        ("bold", |a| a.bold()),
        ("italic", |a| a.italic()),
        ("faint", |a| a.faint()),
        ("blink", |a| a.blink()),
        ("inverse", |a| a.inverse()),
        ("invisible", |a| a.invisible()),
        ("strikethrough", |a| a.strikethrough()),
        ("overline", |a| a.overline()),
    ];

    for (set_name, setter) in write_fns {
        let mut style = make_default_style();
        setter(&mut style);
        let cs = convert_style(&style);
        for (get_name, reader) in read_fns {
            if *get_name == *set_name {
                assert!(reader(&cs.attrs), "{set_name} should be true after being set");
            } else {
                assert!(!reader(&cs.attrs), "{get_name} should be false when only {set_name} is set");
            }
        }
    }
}

#[test]
fn test_convert_style_underline_single() {
    let mut style = make_default_style();
    style.underline = Underline::Single;
    assert_eq!(convert_style(&style).underline, 1);
}

#[test]
fn test_convert_style_underline_double() {
    let mut style = make_default_style();
    style.underline = Underline::Double;
    assert_eq!(convert_style(&style).underline, 2);
}

#[test]
fn test_convert_style_underline_curly() {
    let mut style = make_default_style();
    style.underline = Underline::Curly;
    assert_eq!(convert_style(&style).underline, 3);
}

#[test]
fn test_convert_style_underline_dotted() {
    let mut style = make_default_style();
    style.underline = Underline::Dotted;
    assert_eq!(convert_style(&style).underline, 4);
}

#[test]
fn test_convert_style_underline_dashed() {
    let mut style = make_default_style();
    style.underline = Underline::Dashed;
    assert_eq!(convert_style(&style).underline, 5);
}

#[test]
fn test_convert_style_underline_none() {
    let style = make_default_style();
    assert_eq!(convert_style(&style).underline, 0);
}

#[test]
fn test_convert_style_fg_palette_color() {
    let mut style = make_default_style();
    style.fg_color = StyleColor::Palette(PaletteIndex(7));
    let cs = convert_style(&style);
    assert_eq!(cs.fg_tag, STYLE_COLOR_PALETTE);
    assert_eq!(cs.fg_palette, 7);
}

#[test]
fn test_convert_style_fg_rgb_color() {
    let mut style = make_default_style();
    style.fg_color = StyleColor::Rgb(RgbColor { r: 100, g: 150, b: 200 });
    let cs = convert_style(&style);
    assert_eq!(cs.fg_tag, STYLE_COLOR_RGB);
    assert_eq!(cs.fg_rgb, (100, 150, 200));
}

#[test]
fn test_convert_style_bg_palette_color() {
    let mut style = make_default_style();
    style.bg_color = StyleColor::Palette(PaletteIndex(200));
    let cs = convert_style(&style);
    assert_eq!(cs.bg_tag, STYLE_COLOR_PALETTE);
    assert_eq!(cs.bg_palette, 200);
}

#[test]
fn test_convert_style_bg_rgb_color() {
    let mut style = make_default_style();
    style.bg_color = StyleColor::Rgb(RgbColor { r: 30, g: 60, b: 90 });
    let cs = convert_style(&style);
    assert_eq!(cs.bg_tag, STYLE_COLOR_RGB);
    assert_eq!(cs.bg_rgb, (30, 60, 90));
}

#[test]
fn test_convert_style_underline_color_palette() {
    let mut style = make_default_style();
    style.underline_color = StyleColor::Palette(PaletteIndex(1));
    let cs = convert_style(&style);
    assert_eq!(cs.underline_color_tag, STYLE_COLOR_PALETTE);
    assert_eq!(cs.underline_color_palette, 1);
}

#[test]
fn test_convert_style_underline_color_rgb() {
    let mut style = make_default_style();
    style.underline_color = StyleColor::Rgb(RgbColor { r: 255, g: 128, b: 0 });
    let cs = convert_style(&style);
    assert_eq!(cs.underline_color_tag, STYLE_COLOR_RGB);
    assert_eq!(cs.underline_color_rgb, (255, 128, 0));
}

#[test]
fn test_convert_style_all_colors_and_attrs() {
    let style = Style {
        fg_color: StyleColor::Rgb(RgbColor { r: 255, g: 0, b: 0 }),
        bg_color: StyleColor::Palette(PaletteIndex(42)),
        underline_color: StyleColor::Rgb(RgbColor { r: 0, g: 255, b: 0 }),
        bold: true,
        italic: true,
        faint: false,
        blink: true,
        inverse: false,
        invisible: false,
        strikethrough: true,
        overline: false,
        underline: Underline::Curly,
    };
    let cs = convert_style(&style);

    // Foreground: RGB
    assert_eq!(cs.fg_tag, STYLE_COLOR_RGB);
    assert_eq!(cs.fg_rgb, (255, 0, 0));

    // Background: palette
    assert_eq!(cs.bg_tag, STYLE_COLOR_PALETTE);
    assert_eq!(cs.bg_palette, 42);

    // Underline color: RGB
    assert_eq!(cs.underline_color_tag, STYLE_COLOR_RGB);
    assert_eq!(cs.underline_color_rgb, (0, 255, 0));

    // Attributes
    assert!(cs.attrs.bold());
    assert!(cs.attrs.italic());
    assert!(!cs.attrs.faint());
    assert!(cs.attrs.blink());
    assert!(!cs.attrs.inverse());
    assert!(!cs.attrs.invisible());
    assert!(cs.attrs.strikethrough());
    assert!(!cs.attrs.overline());

    // Underline style
    assert_eq!(cs.underline, 3);
}
