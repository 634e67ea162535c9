//! Cell styles, colours and cursor state read from the emulator each frame.

use vstd::prelude::*;

verus! {

/// Tag of a style colour that is unset (use the default colour).
pub const STYLE_COLOR_NONE: u32 = 0;

/// Tag of a style colour that indexes the 256-entry palette.
pub const STYLE_COLOR_PALETTE: u32 = 1;

/// Tag of a style colour given directly as RGB.
pub const STYLE_COLOR_RGB: u32 = 2;

/// Color information extracted from the render state.
#[derive(Clone, Copy)]
pub struct RenderColors {
    pub foreground: (u8, u8, u8),
    pub background: (u8, u8, u8),
    pub cursor: Option<(u8, u8, u8)>,
    pub palette: [(u8, u8, u8); 256],
}

/// Default foreground and background as reported by the emulator, with the
/// fallback to white-on-black when both are reported as black.
pub open spec fn spec_default_fg(fg: (u8, u8, u8), bg: (u8, u8, u8)) -> (u8, u8, u8) {
    if fg == (0u8, 0u8, 0u8) && bg == (0u8, 0u8, 0u8) {
        (255u8, 255u8, 255u8)
    } else {
        fg
    }
}

impl RenderColors {
    /// Build the colour set from the raw values the emulator reports.
    /// When foreground and background are both black, the foreground
    /// falls back to white so that text stays visible.
    pub fn from_raw(
        foreground: (u8, u8, u8),
        background: (u8, u8, u8),
        cursor: Option<(u8, u8, u8)>,
        palette: [(u8, u8, u8); 256],
    ) -> (c: RenderColors)
        ensures
            c.foreground == spec_default_fg(foreground, background),
            c.background == background,
            c.cursor == cursor,
            c.palette@ == palette@,
    {
        let fg = if foreground.0 == 0 && foreground.1 == 0 && foreground.2 == 0 && background.0 == 0
            && background.1 == 0 && background.2 == 0 {
            (255u8, 255u8, 255u8)
        } else {
            foreground
        };
        RenderColors { foreground: fg, background, cursor, palette }
    }
}

/// Cursor visual style.
#[derive(Debug, Clone, Copy, PartialEq, Eq, Structural)]
pub enum CursorStyle {
    Bar,
    Block,
    Underline,
    BlockHollow,
}

/// Raw cursor visual-style codes as the emulator reports them.
pub const CURSOR_VISUAL_BAR: u32 = 0;
pub const CURSOR_VISUAL_BLOCK: u32 = 1;
pub const CURSOR_VISUAL_UNDERLINE: u32 = 2;
pub const CURSOR_VISUAL_BLOCK_HOLLOW: u32 = 3;

pub open spec fn spec_cursor_style(code: u32) -> CursorStyle {
    if code == CURSOR_VISUAL_BAR {
        CursorStyle::Bar
    } else if code == CURSOR_VISUAL_UNDERLINE {
        CursorStyle::Underline
    } else if code == CURSOR_VISUAL_BLOCK_HOLLOW {
        CursorStyle::BlockHollow
    } else {
        CursorStyle::Block
    }
}

impl CursorStyle {
    /// Map the emulator's visual-style code to a cursor style; block is the
    /// default for codes it does not know.
    pub fn from_code(code: u32) -> (s: CursorStyle)
        ensures
            s == spec_cursor_style(code),
    {
        if code == CURSOR_VISUAL_BAR {
            CursorStyle::Bar
        } else if code == CURSOR_VISUAL_UNDERLINE {
            CursorStyle::Underline
        } else if code == CURSOR_VISUAL_BLOCK_HOLLOW {
            CursorStyle::BlockHollow
        } else {
            CursorStyle::Block
        }
    }
}

/// Cursor state from the render state.
#[derive(Clone, Copy)]
pub struct CursorState {
    pub visible: bool,
    pub in_viewport: bool,
    pub x: u16,
    pub y: u16,
    pub style: CursorStyle,
    pub blinking: bool,
}

/// Boolean attributes for a terminal cell, stored as a bitfield.
#[derive(Debug, Clone, Copy, PartialEq, Eq, Structural)]
pub struct CellStyleAttrs(pub u8);

/// Whether bit `mask` is set in `bits`.
pub open spec fn has_bit(bits: u8, mask: u8) -> bool {
    bits & mask != 0
}

impl CellStyleAttrs {
    pub const BOLD: u8 = 1;
    pub const ITALIC: u8 = 2;
    pub const FAINT: u8 = 4;
    pub const BLINK: u8 = 8;
    pub const INVERSE: u8 = 16;
    pub const INVISIBLE: u8 = 32;
    pub const STRIKETHROUGH: u8 = 64;
    pub const OVERLINE: u8 = 128;

    /// The raw bitfield.
    pub open spec fn bits(self) -> u8 {
        self.0
    }

    /// Create from a raw bitfield value.
    pub fn from_bits(bits: u8) -> (a: CellStyleAttrs)
        ensures
            a.bits() == bits,
    {
        CellStyleAttrs(bits)
    }

    pub fn bold(self) -> (b: bool)
        ensures
            b == has_bit(self.bits(), 1),
    {
        self.0 & 1 != 0
    }

    pub fn italic(self) -> (b: bool)
        ensures
            b == has_bit(self.bits(), 2),
    {
        self.0 & 2 != 0
    }

    pub fn faint(self) -> (b: bool)
        ensures
            b == has_bit(self.bits(), 4),
    {
        self.0 & 4 != 0
    }

    pub fn blink(self) -> (b: bool)
        ensures
            b == has_bit(self.bits(), 8),
    {
        self.0 & 8 != 0
    }

    pub fn inverse(self) -> (b: bool)
        ensures
            b == has_bit(self.bits(), 16),
    {
        self.0 & 16 != 0
    }

    pub fn invisible(self) -> (b: bool)
        ensures
            b == has_bit(self.bits(), 32),
    {
        self.0 & 32 != 0
    }

    pub fn strikethrough(self) -> (b: bool)
        ensures
            b == has_bit(self.bits(), 64),
    {
        self.0 & 64 != 0
    }

    pub fn overline(self) -> (b: bool)
        ensures
            b == has_bit(self.bits(), 128),
    {
        self.0 & 128 != 0
    }
}

/// Each getter reads exactly its own bit: setting a single attribute bit
/// makes that getter true and leaves every other getter false.
pub proof fn law_single_bit_attrs(k: u8)
    requires
        k < 8,
    ensures
        ({
            let b = (1u8 << k) as u8;
            &&& has_bit(b, 1) == (k == 0)
            &&& has_bit(b, 2) == (k == 1)
            &&& has_bit(b, 4) == (k == 2)
            &&& has_bit(b, 8) == (k == 3)
            &&& has_bit(b, 16) == (k == 4)
            &&& has_bit(b, 32) == (k == 5)
            &&& has_bit(b, 64) == (k == 6)
            &&& has_bit(b, 128) == (k == 7)
        }),
{
    assert({
        let b = (1u8 << k) as u8;
        &&& (b & 1 != 0) == (k == 0)
        &&& (b & 2 != 0) == (k == 1)
        &&& (b & 4 != 0) == (k == 2)
        &&& (b & 8 != 0) == (k == 3)
        &&& (b & 16 != 0) == (k == 4)
        &&& (b & 32 != 0) == (k == 5)
        &&& (b & 64 != 0) == (k == 6)
        &&& (b & 128 != 0) == (k == 7)
    }) by (bit_vector)
        requires
            k < 8,
    ;
}

/// Cell style resolved from the render state.
#[derive(Debug, Clone, Copy)]
pub struct CellStyle {
    pub fg_tag: u32,
    pub fg_palette: u8,
    pub fg_rgb: (u8, u8, u8),
    pub bg_tag: u32,
    pub bg_palette: u8,
    pub bg_rgb: (u8, u8, u8),
    pub underline_color_tag: u32,
    pub underline_color_palette: u8,
    pub underline_color_rgb: (u8, u8, u8),
    pub attrs: CellStyleAttrs,
    pub underline: i32,
}

/// The style of a cell that carries no styling at all.
pub open spec fn spec_default_cell_style() -> CellStyle {
    CellStyle {
        fg_tag: STYLE_COLOR_NONE,
        fg_palette: 0,
        fg_rgb: (0, 0, 0),
        bg_tag: STYLE_COLOR_NONE,
        bg_palette: 0,
        bg_rgb: (0, 0, 0),
        underline_color_tag: STYLE_COLOR_NONE,
        underline_color_palette: 0,
        underline_color_rgb: (0, 0, 0),
        attrs: CellStyleAttrs(0),
        underline: 0,
    }
}

/// Return a [`CellStyle`] with all fields at their canonical default values.
pub fn default_cell_style() -> (s: CellStyle)
    ensures
        s == spec_default_cell_style(),
{
    CellStyle {
        fg_tag: STYLE_COLOR_NONE,
        fg_palette: 0,
        fg_rgb: (0, 0, 0),
        bg_tag: STYLE_COLOR_NONE,
        bg_palette: 0,
        bg_rgb: (0, 0, 0),
        underline_color_tag: STYLE_COLOR_NONE,
        underline_color_palette: 0,
        underline_color_rgb: (0, 0, 0),
        attrs: CellStyleAttrs(0),
        underline: 0,
    }
}

/// The concrete colour a style colour resolves to.
pub open spec fn spec_resolve_color(
    tag: u32,
    palette_idx: u8,
    rgb: (u8, u8, u8),
    palette: Seq<(u8, u8, u8)>,
    fallback: (u8, u8, u8),
) -> (u8, u8, u8) {
    if tag == STYLE_COLOR_RGB {
        rgb
    } else if tag == STYLE_COLOR_PALETTE {
        if (palette_idx as int) < palette.len() {
            palette[palette_idx as int]
        } else {
            fallback
        }
    } else {
        fallback
    }
}

/// Resolve a style color to a concrete RGB tuple.
pub fn resolve_color(
    tag: u32,
    palette_idx: u8,
    rgb: (u8, u8, u8),
    colors: &RenderColors,
    fallback: (u8, u8, u8),
) -> (c: (u8, u8, u8))
    ensures
        c == spec_resolve_color(tag, palette_idx, rgb, colors.palette@, fallback),
{
    if tag == STYLE_COLOR_RGB {
        rgb
    } else if tag == STYLE_COLOR_PALETTE {
        colors.palette[palette_idx as usize]
    } else {
        fallback
    }
}

/// The list after pushing `row`: appended while fewer than 256 are held.
pub open spec fn spec_push_row(d: Seq<u16>, row: u16) -> Seq<u16> {
    if d.len() < 256 {
        d.push(row)
    } else {
        d
    }
}

/// The list after pushing `rows` in order onto `d`.
pub open spec fn spec_push_rows(d: Seq<u16>, rows: Seq<u16>) -> Seq<u16>
    decreases rows.len(),
{
    if rows.len() == 0 {
        d
    } else {
        spec_push_row(spec_push_rows(d, rows.drop_last()), rows.last())
    }
}

/// Pushing rows onto an empty list keeps the first 256 of them, in order,
/// and drops the rest.
pub proof fn law_pushes_keep_first_256(rows: Seq<u16>)
    ensures
        spec_push_rows(Seq::empty(), rows) == rows.take(if rows.len() < 256 { rows.len() as int } else { 256 }),
    decreases rows.len(),
{
    if rows.len() > 0 {
        law_pushes_keep_first_256(rows.drop_last());
        let p = rows.drop_last();
        if p.len() < 256 {
            assert(p.take(p.len() as int).push(rows.last()) =~= rows.take(rows.len() as int));
        } else {
            assert(p.take(256) =~= rows.take(256));
        }
    }
}

/// Stack-allocated list of dirty row indices (at most 256 rows).
pub struct DirtyRows {
    buf: [u16; 256],
    len: u16,
}

impl View for DirtyRows {
    type V = Seq<u16>;

    closed spec fn view(&self) -> Seq<u16> {
        self.buf@.subrange(0, self.len as int)
    }
}

impl DirtyRows {
    /// Capacity of the list.
    pub open spec fn capacity() -> nat {
        256
    }

    pub closed spec fn wf(&self) -> bool {
        self.len <= 256
    }

    /// An empty list.
    pub fn new() -> (d: DirtyRows)
        ensures
            d.wf(),
            d@ == Seq::<u16>::empty(),
    {
        DirtyRows { buf: [0u16; 256], len: 0 }
    }

    /// Append a row; once the list holds 256 rows further rows are dropped.
    pub fn push(&mut self, row: u16)
        requires
            old(self).wf(),
        ensures
            final(self).wf(),
            old(self)@.len() < 256 ==> final(self)@ == old(self)@.push(row),
            old(self)@.len() >= 256 ==> final(self)@ == old(self)@,
            final(self)@ == spec_push_row(old(self)@, row),
    {
        let idx = self.len as usize;
        if idx < 256 {
            self.buf[idx] = row;
            self.len = self.len + 1;
            assert(self@ =~= old(self)@.push(row));
        }
    }

    pub fn as_slice(&self) -> (s: &[u16])
        requires
            self.wf(),
        ensures
            s@ == self@,
    {
        let len = self.len as usize;
        let s = vstd::slice::slice_subrange(self.buf.as_slice(), 0, len);
        s
    }

    pub fn len(&self) -> (n: usize)
        requires
            self.wf(),
        ensures
            n == self@.len(),
    {
        self.len as usize
    }

    pub fn is_empty(&self) -> (b: bool)
        requires
            self.wf(),
        ensures
            b == (self@.len() == 0),
    {
        self.len == 0
    }
}

/// The dirty rows of a frame, in order, among the first `total_rows`
/// rows the emulator reports; at most the first 256 are kept.
pub open spec fn spec_dirty_rows(flags: Seq<bool>, total_rows: int) -> Seq<u16>
    decreases flags.len(),
{
    if flags.len() == 0 {
        Seq::empty()
    } else {
        let prev = spec_dirty_rows(flags.drop_last(), total_rows);
        let r = flags.len() - 1;
        if flags.last() && r < total_rows && prev.len() < 256 {
            prev.push(r as u16)
        } else {
            prev
        }
    }
}

/// Collect the indices of dirty rows from the per-row dirty flags the
/// emulator reports, keeping rows below `total_rows`.
pub fn collect_dirty_rows(flags: &[bool], total_rows: u16) -> (d: DirtyRows)
    requires
        flags@.len() <= 65536,
    ensures
        d.wf(),
        d@ == spec_dirty_rows(flags@, total_rows as int),
{
    let mut d = DirtyRows::new();
    let mut i: usize = 0;
    while i < flags.len()
        invariant
            i <= flags@.len() <= 65536,
            d.wf(),
            d@ == spec_dirty_rows(flags@.subrange(0, i as int), total_rows as int),
        decreases flags@.len() - i,
    {
        assert(flags@.subrange(0, i as int + 1).drop_last() =~= flags@.subrange(0, i as int));
        if flags[i] && i < total_rows as usize {
            d.push(i as u16);
        }
        i = i + 1;
    }
    assert(flags@.subrange(0, flags@.len() as int) =~= flags@);
    d
}

/// The dirty rows of a frame come out in increasing order, each below the
/// row count, at most 256 of them, and each one flagged dirty.
pub proof fn law_dirty_rows_sorted_bounded(flags: Seq<bool>, total_rows: int)
    requires
        flags.len() <= 65536,
    ensures
        spec_dirty_rows(flags, total_rows).len() <= 256,
        forall|i: int, j: int|
            0 <= i < j < spec_dirty_rows(flags, total_rows).len() ==> spec_dirty_rows(flags, total_rows)[i]
                < spec_dirty_rows(flags, total_rows)[j],
        forall|i: int|
            0 <= i < spec_dirty_rows(flags, total_rows).len() ==> (#[trigger] spec_dirty_rows(flags, total_rows)[i]) < total_rows
                && (spec_dirty_rows(flags, total_rows)[i] as int) < flags.len() && flags[spec_dirty_rows(flags, total_rows)[i] as int],
    decreases flags.len(),
{
    if flags.len() > 0 {
        let prev = spec_dirty_rows(flags.drop_last(), total_rows);
        law_dirty_rows_sorted_bounded(flags.drop_last(), total_rows);
        let r = flags.len() - 1;
        assert forall|i: int| 0 <= i < prev.len() implies (prev[i] as int) < r by {}
        if flags.last() && r < total_rows && prev.len() < 256 {
            assert(r < 65536 ==> (r as u16) as int == r);
        }
    }
}


/// A colour as a style gives it: unset, an index into the palette, or RGB.
#[derive(Debug, Clone, Copy, PartialEq, Eq, Structural)]
pub enum StyleColor {
    Unset,
    Palette(PaletteIndex),
    Rgb(RgbColor),
}

/// An index into the 256-entry palette.
#[derive(Debug, Clone, Copy, PartialEq, Eq, Structural)]
pub struct PaletteIndex(pub u8);

/// A colour given by its red, green and blue components.
#[derive(Debug, Clone, Copy, PartialEq, Eq, Structural)]
pub struct RgbColor {
    pub r: u8,
    pub g: u8,
    pub b: u8,
}

/// The underline of a style.
#[derive(Debug, Clone, Copy, PartialEq, Eq, Structural)]
pub enum Underline {
    Off,
    Single,
    Double,
    Curly,
    Dotted,
    Dashed,
}

/// A cell's style as the emulator reports it.
#[derive(Debug, Clone, Copy, PartialEq, Eq, Structural)]
pub struct Style {
    pub fg_color: StyleColor,
    pub bg_color: StyleColor,
    pub underline_color: StyleColor,
    pub bold: bool,
    pub italic: bool,
    pub faint: bool,
    pub blink: bool,
    pub inverse: bool,
    pub invisible: bool,
    pub strikethrough: bool,
    pub overline: bool,
    pub underline: Underline,
}

/// A style colour as a tag, a palette index and an RGB triple; the parts
/// the tag does not use are zero.
pub open spec fn spec_style_color(c: StyleColor) -> (u32, u8, (u8, u8, u8)) {
    match c {
        StyleColor::Unset => (STYLE_COLOR_NONE, 0, (0, 0, 0)),
        StyleColor::Palette(idx) => (STYLE_COLOR_PALETTE, idx.0, (0, 0, 0)),
        StyleColor::Rgb(rgb) => (STYLE_COLOR_RGB, 0, (rgb.r, rgb.g, rgb.b)),
    }
}

/// Split a style colour into tag, palette index and RGB triple.
pub fn convert_style_color(c: StyleColor) -> (r: (u32, u8, (u8, u8, u8)))
    ensures
        r == spec_style_color(c),
{
    match c {
        StyleColor::Unset => (STYLE_COLOR_NONE, 0, (0, 0, 0)),
        StyleColor::Palette(idx) => (STYLE_COLOR_PALETTE, idx.0, (0, 0, 0)),
        StyleColor::Rgb(rgb) => (STYLE_COLOR_RGB, 0, (rgb.r, rgb.g, rgb.b)),
    }
}

/// The attribute bitfield of a style: each flag sets its own bit.
pub open spec fn spec_attr_bits(s: Style) -> u8 {
    ((if s.bold { 1int } else { 0 }) + (if s.italic { 2int } else { 0 }) + (if s.faint { 4int } else { 0 })
        + (if s.blink { 8int } else { 0 }) + (if s.inverse { 16int } else { 0 }) + (if s.invisible {
        32int
    } else {
        0
    }) + (if s.strikethrough { 64int } else { 0 }) + (if s.overline { 128int } else { 0 })) as u8
}

/// The underline kind as the number the renderer uses: 0 for none, then
/// single, double, curly, dotted, dashed.
pub open spec fn spec_underline_code(u: Underline) -> i32 {
    match u {
        Underline::Off => 0,
        Underline::Single => 1,
        Underline::Double => 2,
        Underline::Curly => 3,
        Underline::Dotted => 4,
        Underline::Dashed => 5,
    }
}

/// The renderer's cell style for an emulator style.
pub open spec fn spec_convert_style(s: Style) -> CellStyle {
    let fg = spec_style_color(s.fg_color);
    let bg = spec_style_color(s.bg_color);
    let ul = spec_style_color(s.underline_color);
    CellStyle {
        fg_tag: fg.0,
        fg_palette: fg.1,
        fg_rgb: fg.2,
        bg_tag: bg.0,
        bg_palette: bg.1,
        bg_rgb: bg.2,
        underline_color_tag: ul.0,
        underline_color_palette: ul.1,
        underline_color_rgb: ul.2,
        attrs: CellStyleAttrs(spec_attr_bits(s)),
        underline: spec_underline_code(s.underline),
    }
}

/// Convert an emulator style into the renderer's cell style.
pub fn convert_style(s: &Style) -> (c: CellStyle)
    ensures
        c == spec_convert_style(*s),
{
    let (fg_tag, fg_palette, fg_rgb) = convert_style_color(s.fg_color);
    let (bg_tag, bg_palette, bg_rgb) = convert_style_color(s.bg_color);
    let (ul_tag, ul_palette, ul_rgb) = convert_style_color(s.underline_color);
    let bits: u8 = (if s.bold { 1u8 } else { 0 }) + (if s.italic { 2u8 } else { 0 }) + (if s.faint { 4u8 } else { 0 })
        + (if s.blink { 8u8 } else { 0 }) + (if s.inverse { 16u8 } else { 0 }) + (if s.invisible { 32u8 } else { 0 })
        + (if s.strikethrough { 64u8 } else { 0 }) + (if s.overline { 128u8 } else { 0 });
    let underline: i32 = match s.underline {
        Underline::Off => 0,
        Underline::Single => 1,
        Underline::Double => 2,
        Underline::Curly => 3,
        Underline::Dotted => 4,
        Underline::Dashed => 5,
    };
    CellStyle {
        fg_tag,
        fg_palette,
        fg_rgb,
        bg_tag,
        bg_palette,
        bg_rgb,
        underline_color_tag: ul_tag,
        underline_color_palette: ul_palette,
        underline_color_rgb: ul_rgb,
        attrs: CellStyleAttrs::from_bits(bits),
        underline,
    }
}

/// Each style flag lands on its own attribute bit: the attribute getters
/// of a converted style read back exactly the flags that were set.
pub proof fn law_convert_style_attrs(s: Style)
    ensures
        has_bit(spec_convert_style(s).attrs.0, 1) == s.bold,
        has_bit(spec_convert_style(s).attrs.0, 2) == s.italic,
        has_bit(spec_convert_style(s).attrs.0, 4) == s.faint,
        has_bit(spec_convert_style(s).attrs.0, 8) == s.blink,
        has_bit(spec_convert_style(s).attrs.0, 16) == s.inverse,
        has_bit(spec_convert_style(s).attrs.0, 32) == s.invisible,
        has_bit(spec_convert_style(s).attrs.0, 64) == s.strikethrough,
        has_bit(spec_convert_style(s).attrs.0, 128) == s.overline,
{
    let b0 = s.bold;
    let b1 = s.italic;
    let b2 = s.faint;
    let b3 = s.blink;
    let b4 = s.inverse;
    let b5 = s.invisible;
    let b6 = s.strikethrough;
    let b7 = s.overline;
    let x: u8 = spec_attr_bits(s);
    assert(x == ((if b0 { 1u8 } else { 0u8 }) | (if b1 { 2u8 } else { 0u8 }) | (if b2 { 4u8 } else { 0u8 }) | (if b3 {
        8u8
    } else {
        0u8
    }) | (if b4 { 16u8 } else { 0u8 }) | (if b5 { 32u8 } else { 0u8 }) | (if b6 { 64u8 } else { 0u8 }) | (if b7 {
        128u8
    } else {
        0u8
    }))) by (bit_vector)
        requires
            x == ((if b0 { 1int } else { 0 }) + (if b1 { 2int } else { 0 }) + (if b2 { 4int } else { 0 }) + (if b3 {
                8int
            } else {
                0
            }) + (if b4 { 16int } else { 0 }) + (if b5 { 32int } else { 0 }) + (if b6 { 64int } else { 0 }) + (if b7 {
                128int
            } else {
                0
            })) as u8,
    ;
    assert(
        (x & 1 != 0) == b0 && (x & 2 != 0) == b1 && (x & 4 != 0) == b2 && (x & 8 != 0) == b3 && (x & 16 != 0) == b4
            && (x & 32 != 0) == b5 && (x & 64 != 0) == b6 && (x & 128 != 0) == b7
    ) by (bit_vector)
        requires
            x == ((if b0 { 1u8 } else { 0u8 }) | (if b1 { 2u8 } else { 0u8 }) | (if b2 { 4u8 } else { 0u8 }) | (if b3 {
                8u8
            } else {
                0u8
            }) | (if b4 { 16u8 } else { 0u8 }) | (if b5 { 32u8 } else { 0u8 }) | (if b6 { 64u8 } else { 0u8 }) | (
            if b7 {
                128u8
            } else {
                0u8
            })),
    ;
}

} // verus!
