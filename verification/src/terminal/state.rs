//! The emulator's render state as plain values: the grid of cells with
//! their graphemes, widths and styles, the per-row and global dirty flags,
//! the cursor and the colours. The renderer reads a frame from it.

use vstd::prelude::*;
use super::render::{
    collect_dirty_rows, convert_style, spec_convert_style, spec_default_cell_style, spec_dirty_rows, CellStyle,
    CellStyleAttrs, CursorState, DirtyRows, RenderColors, RgbColor, Style, STYLE_COLOR_NONE, STYLE_COLOR_PALETTE,
    STYLE_COLOR_RGB,
};

verus! {

/// Most codepoints of a grapheme that the renderer reads from one cell.
pub const MAX_CELL_CODEPOINTS: usize = 16;

/// How a cell sits in a line: narrow, the first half of a wide character,
/// the second half of one, or the spacer before a wide character that
/// wrapped.
#[derive(Debug, Clone, Copy, PartialEq, Eq, Structural)]
pub enum CellWide {
    Narrow,
    Wide,
    SpacerTail,
    SpacerHead,
}

/// What a cell without text carries: nothing, or a background colour alone.
#[derive(Debug, Clone, Copy, PartialEq, Eq, Structural)]
pub enum CellContent {
    Codepoints,
    BgPalette(u8),
    BgRgb(RgbColor),
}

/// One cell as the emulator reports it.
#[derive(Debug, Clone)]
pub struct RawCell {
    pub graphemes: Vec<u32>,
    pub wide: CellWide,
    pub style: Style,
    pub content: CellContent,
}

/// The style of a cell without text: the default style, with the
/// background the cell carries, if any.
pub open spec fn spec_empty_cell_style(c: CellContent) -> CellStyle {
    let d = spec_default_cell_style();
    match c {
        CellContent::BgPalette(idx) => CellStyle { bg_tag: STYLE_COLOR_PALETTE, bg_palette: idx, ..d },
        CellContent::BgRgb(rgb) => CellStyle { bg_tag: STYLE_COLOR_RGB, bg_rgb: (rgb.r, rgb.g, rgb.b), ..d },
        CellContent::Codepoints => d,
    }
}

/// The style of a cell without text.
pub fn empty_cell_style(c: CellContent) -> (s: CellStyle)
    ensures
        s == spec_empty_cell_style(c),
{
    let mut s = CellStyle {
        fg_tag: STYLE_COLOR_NONE,
        fg_palette: 0,
        fg_rgb: (0, 0, 0),
        bg_tag: STYLE_COLOR_NONE,
        bg_palette: 0,
        bg_rgb: (0, 0, 0),
        underline_color_tag: STYLE_COLOR_NONE,
        underline_color_palette: 0,
        underline_color_rgb: (0, 0, 0),
        attrs: CellStyleAttrs(0),
        underline: 0,
    };
    match c {
        CellContent::BgPalette(idx) => {
            s.bg_tag = STYLE_COLOR_PALETTE;
            s.bg_palette = idx;
        },
        CellContent::BgRgb(rgb) => {
            s.bg_tag = STYLE_COLOR_RGB;
            s.bg_rgb = (rgb.r, rgb.g, rgb.b);
        },
        CellContent::Codepoints => {},
    }
    s
}

/// Whether the renderer reads the cell's text: it has a grapheme and is
/// not the second half of a wide character.
pub open spec fn has_text(c: RawCell) -> bool {
    c.graphemes@.len() > 0 && c.wide != CellWide::SpacerTail
}

/// What the renderer draws for a cell: its codepoints (at most 16), its
/// style, and whether it is wide. A cell without text draws nothing but
/// the background it carries.
pub open spec fn spec_cell_view(c: RawCell) -> (Seq<u32>, CellStyle, bool) {
    if has_text(c) {
        let n = if c.graphemes@.len() < 16 { c.graphemes@.len() as int } else { 16 };
        (c.graphemes@.take(n), spec_convert_style(c.style), c.wide == CellWide::Wide)
    } else {
        (Seq::empty(), spec_empty_cell_style(c.content), false)
    }
}

/// Read a cell for drawing: its codepoints, style and width.
pub fn cell_view(c: &RawCell) -> (r: (&[u32], CellStyle, bool))
    ensures
        r.0@ == spec_cell_view(*c).0,
        r.1 == spec_cell_view(*c).1,
        r.2 == spec_cell_view(*c).2,
{
    let len = c.graphemes.len();
    if len > 0 && c.wide != CellWide::SpacerTail {
        let n = if len < MAX_CELL_CODEPOINTS { len } else { MAX_CELL_CODEPOINTS };
        let cps = vstd::slice::slice_subrange(c.graphemes.as_slice(), 0, n);
        assert(cps@ =~= c.graphemes@.take(n as int));
        (cps, convert_style(&c.style), c.wide == CellWide::Wide)
    } else {
        let cps = vstd::slice::slice_subrange(c.graphemes.as_slice(), 0, 0);
        assert(cps@ =~= Seq::<u32>::empty());
        (cps, empty_cell_style(c.content), false)
    }
}

/// The emulator's state for one frame: grid size, the global dirty level,
/// the per-row dirty flags, the cells of each row, the cursor and colours.
pub struct RenderState {
    pub cols: u16,
    pub rows: u16,
    pub dirty: u32,
    pub row_dirty: Vec<bool>,
    pub cells: Vec<Vec<RawCell>>,
    pub cursor: CursorState,
    pub colors: RenderColors,
}

impl RenderState {
    /// Each row of cells has its dirty flag.
    pub open spec fn wf(&self) -> bool {
        self.row_dirty@.len() == self.cells@.len()
    }

    /// The grid size as `(cols, rows)`.
    pub fn dimensions(&self) -> (d: (u16, u16))
        ensures
            d == (self.cols, self.rows),
    {
        (self.cols, self.rows)
    }

    /// The global dirty level.
    pub fn dirty(&self) -> (d: u32)
        ensures
            d == self.dirty,
    {
        self.dirty
    }

    /// Mark the whole state clean.
    pub fn clear_dirty(&mut self)
        ensures
            final(self).dirty == 0,
            final(self).row_dirty@ == old(self).row_dirty@,
            final(self).cells@ == old(self).cells@,
            final(self).cols == old(self).cols,
            final(self).rows == old(self).rows,
            final(self).cursor == old(self).cursor,
    {
        self.dirty = 0;
    }

    /// The cursor.
    pub fn cursor(&self) -> (c: CursorState)
        ensures
            c == self.cursor,
    {
        self.cursor
    }

    /// The colours.
    pub fn colors(&self) -> (c: RenderColors)
        ensures
            c == self.colors,
    {
        self.colors
    }

    /// The dirty rows among the first `total_rows`, at most 256 of them.
    pub fn dirty_row_indices(&self, total_rows: u16) -> (d: DirtyRows)
        requires
            self.row_dirty@.len() <= 65536,
        ensures
            d.wf(),
            d@ == spec_dirty_rows(self.row_dirty@, total_rows as int),
    {
        collect_dirty_rows(self.row_dirty.as_slice(), total_rows)
    }
}

} // verus!
