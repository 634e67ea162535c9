//! Frame-level decisions: how much of the retained cell content is redrawn,
//! and the overlays drawn over the copy shown on screen.

use vstd::prelude::*;
use super::{copy_retained_to_shm, spec_copy_retained, Bgra, GridMetrics, Rect, RenderTarget, SearchHighlight, SelectionRange, Surface};
use super::primitives::draw_rect_alpha;
use super::overlay::spec_blend_rect;
use super::text_overlay::{draw_preedit, draw_search_bar, preedit_fits, search_bar_fits, spec_preedit_run, spec_search_bar};
use super::background::{
    clear_background_alpha, clear_dirty_rows_alpha, lemma_clear_background_len, lemma_clear_dirty_len, spec_clear_background,
    spec_clear_dirty,
};
use super::cursor::{cursor_drawn, cursor_fits, draw_cursor, spec_cursor};
use super::overlay::{
    draw_search_highlights, draw_selection, highlight_fits, sel_row_fits, sel_rows, selection_paint,
    spec_highlights, spec_selection,
};
use super::cells::{cell_area, cell_fits, draw_cell, glyph_ok, is_box_cell, spec_draw_cell};
use super::primitives::surface_wf;
use crate::font::GlyphImage;
use crate::terminal::render::{law_dirty_rows_sorted_bounded, spec_dirty_rows, CursorState, RenderColors};
use crate::terminal::state::{cell_view, spec_cell_view, RawCell, RenderState};

verus! {

/// The emulator reports nothing changed since the last frame.
pub const DIRTY_NONE: u32 = 0;

/// The emulator reports some rows changed.
pub const DIRTY_PARTIAL: u32 = 1;

/// The emulator reports everything changed.
pub const DIRTY_FULL: u32 = 2;

/// How much of the retained cell content a frame redraws.
#[derive(Clone, Copy, PartialEq, Eq, Structural, Debug)]
pub enum RedrawKind {
    /// Clear and redraw every row.
    Full,
    /// Clear and redraw the dirty rows.
    Partial,
    /// Keep the retained content.
    Clean,
}

/// A resize (the retained buffer no longer has the canvas's length) or a
/// full change redraws everything; a partial change redraws the dirty rows.
pub open spec fn spec_redraw_kind(retained_len: usize, buf_len: usize, dirty: u32) -> RedrawKind {
    if retained_len != buf_len || dirty == DIRTY_FULL {
        RedrawKind::Full
    } else if dirty == DIRTY_PARTIAL {
        RedrawKind::Partial
    } else {
        RedrawKind::Clean
    }
}

/// Decide how much of the frame to redraw.
pub fn redraw_kind(retained_len: usize, buf_len: usize, dirty: u32) -> (k: RedrawKind)
    ensures
        k == spec_redraw_kind(retained_len, buf_len, dirty),
{
    if retained_len != buf_len || dirty == DIRTY_FULL {
        RedrawKind::Full
    } else if dirty == DIRTY_PARTIAL {
        RedrawKind::Partial
    } else {
        RedrawKind::Clean
    }
}

/// Give the retained buffer the canvas's length for a full redraw: bytes it
/// already had are kept, new bytes are zero.
pub fn prepare_retained(retained: &mut Vec<u8>, len: usize)
    ensures
        final(retained)@.len() == len,
        forall|i: int| 0 <= i < len ==> #[trigger] final(retained)@[i] == if i < old(retained)@.len() {
            old(retained)@[i]
        } else {
            0u8
        },
{
    retained.resize(len, 0u8);
    proof {
        if len > old(retained)@.len() {
            assert forall|i: int| old(retained)@.len() <= i < len implies #[trigger] retained@[i] == 0u8 by {
                assert(vstd::pervasive::cloned::<u8>(0u8, retained@[i]));
            }
            assert forall|i: int| 0 <= i < old(retained)@.len() implies #[trigger] retained@[i] == old(retained)@[i] by {
                assert(retained@.subrange(0, old(retained)@.len() as int)[i] == retained@[i]);
            }
        }
    }
}

/// The canvas after the overlays that need no font: the selection, the
/// search highlights, then the cursor.
pub open spec fn spec_overlays(
    buf: Seq<u8>,
    w: u32,
    h: u32,
    s: u32,
    grid: GridMetrics,
    cols: u16,
    selection: Option<SelectionRange>,
    selection_bg: Option<Bgra>,
    highlights: Seq<SearchHighlight>,
    cursor: CursorState,
    colors: RenderColors,
    blink_visible: bool,
    cursor_wide: bool,
) -> Seq<u8> {
    let b1 = match selection {
        Some(sel) => spec_selection(
            buf,
            w,
            h,
            s,
            grid,
            sel,
            cols,
            selection_paint(selection_bg).0,
            selection_paint(selection_bg).1,
            sel_rows(sel),
        ),
        None => buf,
    };
    let b2 = spec_highlights(b1, w, h, s, grid, highlights, highlights.len());
    spec_cursor(b2, w, h, s, grid, cursor, colors, blink_visible, cursor_wide)
}

/// Draw the selection, the search highlights and the cursor over the
/// canvas, in that order.
pub fn draw_overlays(
    surface: &mut Surface<'_>,
    grid: &GridMetrics,
    cols: u16,
    selection: Option<SelectionRange>,
    selection_colors: (Option<Bgra>, Option<Bgra>),
    highlights: &[SearchHighlight],
    cursor: &CursorState,
    colors: &RenderColors,
    blink_visible: bool,
    cursor_wide: bool,
)
    requires
        surface_wf(old(surface).width, old(surface).height, old(surface).stride, old(surface).buf@.len() as int),
        selection matches Some(sel) ==> forall|row: int|
            sel.start_row <= row <= sel.end_row ==> #[trigger] sel_row_fits(sel, cols, *grid, row),
        forall|i: int| 0 <= i < highlights@.len() ==> #[trigger] highlight_fits(*grid, highlights@[i]),
        cursor_drawn(*cursor, blink_visible) ==> cursor_fits(*grid, *cursor, cursor_wide),
    ensures
        final(final(surface).buf)@ == final(old(surface).buf)@,
        final(surface).width == old(surface).width,
        final(surface).height == old(surface).height,
        final(surface).stride == old(surface).stride,
        final(surface).buf@.len() == old(surface).buf@.len(),
        final(surface).buf@ == spec_overlays(
            old(surface).buf@,
            old(surface).width,
            old(surface).height,
            old(surface).stride,
            *grid,
            cols,
            selection,
            selection_colors.1,
            highlights@,
            *cursor,
            *colors,
            blink_visible,
            cursor_wide,
        ),
{
    if let Some(sel) = selection {
        draw_selection(surface, grid, &sel, cols, selection_colors);
    }
    if highlights.len() > 0 {
        draw_search_highlights(surface, grid, highlights);
    }
    draw_cursor(surface, grid, cursor, colors, blink_visible, cursor_wide);
}

/// The buffer after drawing the first `n` cells of row `row`.
pub open spec fn spec_draw_row(
    buf: Seq<u8>,
    w: u32,
    h: u32,
    s: u32,
    grid: GridMetrics,
    colors: RenderColors,
    bold_is_bright: bool,
    cursor_blink_visible: bool,
    row: int,
    cells: Seq<RawCell>,
    glyphs: Seq<Option<GlyphImage>>,
    n: int,
) -> Seq<u8>
    decreases n,
{
    if n <= 0 {
        buf
    } else {
        let prev = spec_draw_row(buf, w, h, s, grid, colors, bold_is_bright, cursor_blink_visible, row, cells, glyphs, n - 1);
        let v = spec_cell_view(cells[n - 1]);
        spec_draw_cell(
            prev,
            w,
            h,
            s,
            grid,
            colors,
            bold_is_bright,
            cursor_blink_visible,
            row as usize,
            (n - 1) as usize,
            v.0,
            v.1,
            v.2,
            glyphs[n - 1],
        )
    }
}

/// Whether row `i` is drawn: every row, or only the dirty ones.
pub open spec fn row_drawn(row_dirty: Seq<bool>, dirty_only: bool, i: int) -> bool {
    !dirty_only || row_dirty[i]
}

/// The buffer after drawing the first `n` rows, skipping clean rows when
/// only dirty rows are drawn.
pub open spec fn spec_draw_rows(
    buf: Seq<u8>,
    w: u32,
    h: u32,
    s: u32,
    grid: GridMetrics,
    colors: RenderColors,
    bold_is_bright: bool,
    cursor_blink_visible: bool,
    cells: Seq<Vec<RawCell>>,
    glyphs: Seq<Vec<Option<GlyphImage>>>,
    row_dirty: Seq<bool>,
    dirty_only: bool,
    n: int,
) -> Seq<u8>
    decreases n,
{
    if n <= 0 {
        buf
    } else {
        let prev = spec_draw_rows(
            buf,
            w,
            h,
            s,
            grid,
            colors,
            bold_is_bright,
            cursor_blink_visible,
            cells,
            glyphs,
            row_dirty,
            dirty_only,
            n - 1,
        );
        if row_drawn(row_dirty, dirty_only, n - 1) {
            spec_draw_row(
                prev,
                w,
                h,
                s,
                grid,
                colors,
                bold_is_bright,
                cursor_blink_visible,
                n - 1,
                cells[n - 1]@,
                glyphs[n - 1]@,
                cells[n - 1]@.len() as int,
            )
        } else {
            prev
        }
    }
}

/// Whether a drawn cell under the cursor holds a wide character.
pub open spec fn spec_cells_cursor_wide(
    cells: Seq<Vec<RawCell>>,
    row_dirty: Seq<bool>,
    dirty_only: bool,
    cursor_pos: (u16, u16),
) -> bool {
    let r = cursor_pos.1 as int;
    let c = cursor_pos.0 as int;
    &&& r < cells.len()
    &&& row_drawn(row_dirty, dirty_only, r)
    &&& c < cells[r]@.len()
    &&& spec_cell_view(cells[r]@[c]).2
}

/// The cell at `(i, j)` and its glyph can be drawn.
pub open spec fn cell_ok(grid: GridMetrics, i: int, j: int, cell: RawCell, glyph: Option<GlyphImage>, w: u32, h: u32) -> bool {
    let v = spec_cell_view(cell);
    &&& cell_fits(grid, i as usize, j as usize)
    &&& !is_box_cell(v.0) ==> glyph_ok(glyph, cell_area(grid, i as usize, j as usize, v.2), w, h)
}

/// The glyphs have the shape of the cells, and every cell can be drawn.
pub open spec fn cells_fit(
    grid: GridMetrics,
    cells: Seq<Vec<RawCell>>,
    glyphs: Seq<Vec<Option<GlyphImage>>>,
    w: u32,
    h: u32,
) -> bool {
    &&& glyphs.len() == cells.len()
    &&& forall|i: int| 0 <= i < cells.len() ==> (#[trigger] glyphs[i])@.len() == cells[i]@.len()
    &&& forall|i: int, j: int|
        0 <= i < cells.len() && 0 <= j < cells[i]@.len() ==> cell_ok(grid, i, j, #[trigger] cells[i]@[j], glyphs[i]@[j], w, h)
}

fn draw_row(
    surface: &mut Surface<'_>,
    grid: &GridMetrics,
    colors: &RenderColors,
    bold_is_bright: bool,
    cursor_blink_visible: bool,
    cursor_pos: (u16, u16),
    row: usize,
    cells: &Vec<RawCell>,
    glyphs: &Vec<Option<GlyphImage>>,
) -> (wide: bool)
    requires
        surface_wf(old(surface).width, old(surface).height, old(surface).stride, old(surface).buf@.len() as int),
        glyphs@.len() == cells@.len(),
        forall|j: int|
            0 <= j < cells@.len() ==> cell_ok(
                *grid,
                row as int,
                j,
                #[trigger] cells@[j],
                glyphs@[j],
                old(surface).width,
                old(surface).height,
            ),
    ensures
        final(final(surface).buf)@ == final(old(surface).buf)@,
        final(surface).width == old(surface).width,
        final(surface).height == old(surface).height,
        final(surface).stride == old(surface).stride,
        final(surface).buf@.len() == old(surface).buf@.len(),
        final(surface).buf@ == spec_draw_row(
            old(surface).buf@,
            old(surface).width,
            old(surface).height,
            old(surface).stride,
            *grid,
            *colors,
            bold_is_bright,
            cursor_blink_visible,
            row as int,
            cells@,
            glyphs@,
            cells@.len() as int,
        ),
        wide == (row == cursor_pos.1 && (cursor_pos.0 as int) < cells@.len() && spec_cell_view(
            cells@[cursor_pos.0 as int],
        ).2),
{
    let ghost b0 = surface.buf@;
    let n = cells.len();
    let mut wide = false;
    let mut j: usize = 0;
    while j < n
        invariant
            final(surface.buf)@ == final(old(surface).buf)@,
            j <= n == cells@.len() == glyphs@.len(),
            surface.width == old(surface).width,
            surface.height == old(surface).height,
            surface.stride == old(surface).stride,
            surface.buf@.len() == b0.len(),
            b0 == old(surface).buf@,
            surface_wf(surface.width, surface.height, surface.stride, b0.len() as int),
            forall|k: int|
                0 <= k < cells@.len() ==> cell_ok(*grid, row as int, k, #[trigger] cells@[k], glyphs@[k], surface.width, surface.height),
            surface.buf@ == spec_draw_row(
                b0,
                surface.width,
                surface.height,
                surface.stride,
                *grid,
                *colors,
                bold_is_bright,
                cursor_blink_visible,
                row as int,
                cells@,
                glyphs@,
                j as int,
            ),
            wide == (row == cursor_pos.1 && (cursor_pos.0 as int) < j && spec_cell_view(cells@[cursor_pos.0 as int]).2),
        decreases n - j,
    {
        let (cps, style, is_wide) = cell_view(&cells[j]);
        assert(cell_ok(*grid, row as int, j as int, cells@[j as int], glyphs@[j as int], surface.width, surface.height));
        let g: Option<&GlyphImage> = match &glyphs[j] {
            Some(g) => Some(g),
            None => None,
        };
        let w = draw_cell(
            surface,
            grid,
            colors,
            bold_is_bright,
            cursor_blink_visible,
            (cursor_pos.0 as usize, cursor_pos.1 as usize),
            row,
            j,
            cps,
            &style,
            is_wide,
            g,
        );
        if w {
            wide = true;
        }
        j = j + 1;
    }
    wide
}

/// Draw the cells of every row, or of the dirty rows only, and mark the
/// drawn rows clean. Returns whether the cell under the cursor holds a
/// wide character.
pub fn draw_cells(
    surface: &mut Surface<'_>,
    state: &mut RenderState,
    glyphs: &Vec<Vec<Option<GlyphImage>>>,
    grid: &GridMetrics,
    colors: &RenderColors,
    bold_is_bright: bool,
    cursor_blink_visible: bool,
    cursor_pos: (u16, u16),
    dirty_only: bool,
) -> (cursor_wide: bool)
    requires
        surface_wf(old(surface).width, old(surface).height, old(surface).stride, old(surface).buf@.len() as int),
        old(state).wf(),
        cells_fit(*grid, old(state).cells@, glyphs@, old(surface).width, old(surface).height),
    ensures
        final(final(surface).buf)@ == final(old(surface).buf)@,
        final(surface).width == old(surface).width,
        final(surface).height == old(surface).height,
        final(surface).stride == old(surface).stride,
        final(surface).buf@ == spec_draw_rows(
            old(surface).buf@,
            old(surface).width,
            old(surface).height,
            old(surface).stride,
            *grid,
            *colors,
            bold_is_bright,
            cursor_blink_visible,
            old(state).cells@,
            glyphs@,
            old(state).row_dirty@,
            dirty_only,
            old(state).cells@.len() as int,
        ),
        cursor_wide == spec_cells_cursor_wide(old(state).cells@, old(state).row_dirty@, dirty_only, cursor_pos),
        final(state).row_dirty@ == Seq::new(old(state).row_dirty@.len(), |i: int| false),
        final(state).cells@ == old(state).cells@,
        final(state).dirty == old(state).dirty,
        final(state).cols == old(state).cols,
        final(state).rows == old(state).rows,
        final(state).cursor == old(state).cursor,
        final(state).colors == old(state).colors,
{
    let ghost b0 = surface.buf@;
    let ghost d0 = state.row_dirty@;
    let n = state.cells.len();
    let mut wide = false;
    let mut i: usize = 0;
    while i < n
        invariant
            final(surface.buf)@ == final(old(surface).buf)@,
            i <= n == state.cells@.len() == glyphs@.len() == d0.len(),
            state.row_dirty@.len() == n,
            state.cells@ == old(state).cells@,
            d0 == old(state).row_dirty@,
            state.dirty == old(state).dirty,
            state.cols == old(state).cols,
            state.rows == old(state).rows,
            state.cursor == old(state).cursor,
            state.colors == old(state).colors,
            forall|k: int| 0 <= k < i ==> !(#[trigger] state.row_dirty@[k]),
            forall|k: int| i <= k < n ==> #[trigger] state.row_dirty@[k] == d0[k],
            surface.width == old(surface).width,
            surface.height == old(surface).height,
            surface.stride == old(surface).stride,
            surface.buf@.len() == b0.len(),
            b0 == old(surface).buf@,
            surface_wf(surface.width, surface.height, surface.stride, b0.len() as int),
            cells_fit(*grid, state.cells@, glyphs@, surface.width, surface.height),
            surface.buf@ == spec_draw_rows(
                b0,
                surface.width,
                surface.height,
                surface.stride,
                *grid,
                *colors,
                bold_is_bright,
                cursor_blink_visible,
                state.cells@,
                glyphs@,
                d0,
                dirty_only,
                i as int,
            ),
            wide == ((cursor_pos.1 as int) < i && spec_cells_cursor_wide(state.cells@, d0, dirty_only, cursor_pos)),
        decreases n - i,
    {
        if !dirty_only || state.row_dirty[i] {
            assert(glyphs@[i as int]@.len() == state.cells@[i as int]@.len());
            assert forall|j: int| 0 <= j < state.cells@[i as int]@.len() implies cell_ok(
                *grid,
                i as int,
                j,
                #[trigger] state.cells@[i as int]@[j],
                glyphs@[i as int]@[j],
                surface.width,
                surface.height,
            ) by {}
            let w = draw_row(surface, grid, colors, bold_is_bright, cursor_blink_visible, cursor_pos, i, &state.cells[i], &glyphs[i]);
            if w {
                wide = true;
            }
            state.row_dirty.set(i, false);
        }
        i = i + 1;
    }
    assert(state.row_dirty@ =~= Seq::new(d0.len(), |k: int| false));
    wide
}

/// What a frame draws besides the cells.
pub struct RenderOptions<'a> {
    pub bold_is_bright: bool,
    pub cursor_blink_visible: bool,
    /// Selection range as `((start_col, start_row), (end_col, end_row))`, normalized.
    pub selection: Option<((u16, u16), (u16, u16))>,
    /// Padding in pixels around the terminal grid.
    pub padding: u32,
    /// Alpha of the background (255 is opaque).
    pub background_alpha: u8,
    /// Search match highlights to draw.
    pub search_highlights: &'a [SearchHighlight],
    /// Custom selection foreground color (None = use inversion).
    pub selection_fg: Option<Bgra>,
    /// Custom selection background color (None = use default blue overlay).
    pub selection_bg: Option<Bgra>,
    /// The scrollbar thumb, when the scrollbar shows (its geometry is
    /// computed by the caller from the scroll position).
    pub scrollbar_thumb: Option<Rect>,
    /// IME preedit text to draw at the cursor position (None if no active composition).
    pub preedit: Option<&'a str>,
    /// The font's glyph for each character of the preedit.
    pub preedit_glyphs: &'a [Option<GlyphImage>],
    /// Search bar query to draw at the bottom (None if search inactive).
    pub search_bar: Option<&'a str>,
    /// Byte position of the cursor within the search bar query.
    pub search_cursor: usize,
    /// The font's glyph for each character of the search bar's text.
    pub search_bar_glyphs: &'a [Option<GlyphImage>],
}

/// Whether the scrollbar shows: there is scrollback to scroll through and
/// the view is scrolled away from the bottom.
pub open spec fn spec_scrollbar_shown(total: u64, offset: u64, len: u64) -> bool {
    total > len && offset + len < total
}

/// Decide whether the scrollbar shows for a scroll position of `len`
/// visible rows at `offset` within `total` rows.
pub fn scrollbar_shown(total: u64, offset: u64, len: u64) -> (b: bool)
    ensures
        b == spec_scrollbar_shown(total, offset, len),
{
    total > len && offset < total - len
}

/// Colour of the scrollbar thumb.
pub const SCROLLBAR_COLOR: Bgra = (200, 200, 200);

/// Opacity of the scrollbar thumb.
pub const SCROLLBAR_ALPHA: u8 = 128;

/// The canvas after the overlays drawn over the copied cell content: the
/// selection, the search highlights and the cursor, then the scrollbar
/// thumb, the preedit at the cursor and the search bar.
pub open spec fn spec_frame_canvas(
    copied: Seq<u8>,
    w: u32,
    h: u32,
    s: u32,
    grid: GridMetrics,
    state: RenderState,
    colors: RenderColors,
    opts: RenderOptions,
    cursor_wide: bool,
) -> Seq<u8> {
    let b1 = spec_overlays(
        copied,
        w,
        h,
        s,
        grid,
        state.cols,
        opt_selection(opts.selection),
        opts.selection_bg,
        opts.search_highlights@,
        state.cursor,
        colors,
        opts.cursor_blink_visible,
        cursor_wide,
    );
    let b2 = match opts.scrollbar_thumb {
        Some(r) => spec_blend_rect(b1, w, h, s, r.x, r.y, r.w, r.h, SCROLLBAR_COLOR, SCROLLBAR_ALPHA),
        None => b1,
    };
    let b3 = match opts.preedit {
        Some(p) => spec_preedit_run(
            b2,
            w,
            h,
            s,
            grid,
            state.cursor.x,
            state.cursor.y,
            colors.foreground,
            colors.background,
            opts.preedit_glyphs@,
            opts.preedit_glyphs@.len(),
        ),
        None => b2,
    };
    match opts.search_bar {
        Some(q) => spec_search_bar(
            b3,
            w,
            h,
            s,
            grid,
            q@,
            opts.search_highlights@.len(),
            opts.search_cursor as nat,
            opts.search_bar_glyphs@,
        ),
        None => b3,
    }
}

/// The selection of the options as a range.
pub open spec fn opt_selection(sel: Option<((u16, u16), (u16, u16))>) -> Option<SelectionRange> {
    match sel {
        Some(((sc, sr), (ec, er))) => Some(SelectionRange { start_col: sc, start_row: sr, end_col: ec, end_row: er }),
        None => None,
    }
}

/// The retained buffer resized to `len`: kept bytes, then zeros.
pub open spec fn spec_prepared(r: Seq<u8>, len: nat) -> Seq<u8> {
    Seq::new(len, |i: int| if i < r.len() { r[i] } else { 0u8 })
}

/// The retained cell content after a frame: a full redraw clears the
/// resized buffer and draws every row; a partial redraw clears and redraws
/// the dirty rows; a clean frame keeps it.
pub open spec fn spec_frame_retained(
    r0: Seq<u8>,
    buf_len: nat,
    w: u32,
    h: u32,
    s: u32,
    grid: GridMetrics,
    state: RenderState,
    glyphs: Seq<Vec<Option<GlyphImage>>>,
    colors: RenderColors,
    opts: RenderOptions,
) -> Seq<u8> {
    match spec_redraw_kind(r0.len() as usize, buf_len as usize, state.dirty) {
        RedrawKind::Full => spec_draw_rows(
            spec_clear_background(spec_prepared(r0, buf_len), w, h, s, colors.background, opts.background_alpha),
            w,
            h,
            s,
            grid,
            colors,
            opts.bold_is_bright,
            opts.cursor_blink_visible,
            state.cells@,
            glyphs,
            state.row_dirty@,
            false,
            state.cells@.len() as int,
        ),
        RedrawKind::Partial => {
            let d = spec_dirty_rows(state.row_dirty@, 65535);
            spec_draw_rows(
                spec_clear_dirty(r0, w, s, grid, d, d.len(), colors.background, opts.background_alpha),
                w,
                h,
                s,
                grid,
                colors,
                opts.bold_is_bright,
                opts.cursor_blink_visible,
                state.cells@,
                glyphs,
                state.row_dirty@,
                true,
                state.cells@.len() as int,
            )
        },
        RedrawKind::Clean => r0,
    }
}

/// Whether the frame found a wide character under the cursor among the
/// cells it drew.
pub open spec fn spec_frame_cursor_wide(r0_len: nat, buf_len: nat, state: RenderState) -> bool {
    match spec_redraw_kind(r0_len as usize, buf_len as usize, state.dirty) {
        RedrawKind::Full => spec_cells_cursor_wide(state.cells@, state.row_dirty@, false, (state.cursor.x, state.cursor.y)),
        RedrawKind::Partial => spec_cells_cursor_wide(state.cells@, state.row_dirty@, true, (state.cursor.x, state.cursor.y)),
        RedrawKind::Clean => false,
    }
}

/// Every row's pixel rows fit in `u32`.
pub open spec fn rows_fit(grid: GridMetrics, n: int) -> bool {
    forall|i: int| 0 <= i < n ==> #[trigger] (i * grid.cell_h) + grid.pad + grid.cell_h <= u32::MAX
}

/// Render a frame: bring the retained cell content up to date (all rows
/// on a resize or full change, the dirty rows on a partial change), copy
/// it to the canvas, then draw the selection, the search highlights and
/// the cursor on the canvas only. `glyphs` holds the font's glyph for each
/// cell, in the shape of the grid.
pub fn render_frame(
    target: &mut RenderTarget<'_>,
    state: &mut RenderState,
    cell_w: u32,
    cell_h: u32,
    glyphs: &Vec<Vec<Option<GlyphImage>>>,
    opts: &RenderOptions<'_>,
    colors: &RenderColors,
)
    requires
        surface_wf(old(target).width, old(target).height, old(target).stride, old(target).buf@.len() as int),
        old(state).wf(),
        old(state).row_dirty@.len() <= 65536,
        rows_fit(GridMetrics { cell_w, cell_h, pad: opts.padding }, old(state).row_dirty@.len() as int),
        cells_fit(
            GridMetrics { cell_w, cell_h, pad: opts.padding },
            old(state).cells@,
            glyphs@,
            old(target).width,
            old(target).height,
        ),
        opt_selection(opts.selection) matches Some(sel) ==> forall|row: int|
            sel.start_row <= row <= sel.end_row ==> #[trigger] sel_row_fits(
                sel,
                old(state).cols,
                GridMetrics { cell_w, cell_h, pad: opts.padding },
                row,
            ),
        forall|i: int|
            0 <= i < opts.search_highlights@.len() ==> #[trigger] highlight_fits(
                GridMetrics { cell_w, cell_h, pad: opts.padding },
                opts.search_highlights@[i],
            ),
        cursor_drawn(old(state).cursor, opts.cursor_blink_visible) ==> cursor_fits(
            GridMetrics { cell_w, cell_h, pad: opts.padding },
            old(state).cursor,
            false,
        ) && cursor_fits(GridMetrics { cell_w, cell_h, pad: opts.padding }, old(state).cursor, true),
        opts.scrollbar_thumb matches Some(r) ==> r.x + r.w <= u32::MAX && r.y + r.h <= u32::MAX,
        opts.preedit matches Some(p) ==> opts.preedit_glyphs@.len() == p@.len() && preedit_fits(
            old(target).width,
            old(target).height,
            GridMetrics { cell_w, cell_h, pad: opts.padding },
            old(state).cursor.x,
            old(state).cursor.y,
            opts.preedit_glyphs@,
        ),
        opts.search_bar matches Some(q) ==> search_bar_fits(
            old(target).width,
            old(target).height,
            GridMetrics { cell_w, cell_h, pad: opts.padding },
            q@,
            opts.search_highlights@.len() as nat,
            opts.search_bar_glyphs@,
        ),
    ensures
        final(target).width == old(target).width,
        final(target).height == old(target).height,
        final(target).stride == old(target).stride,
        final(target).retained@ == spec_frame_retained(
            old(target).retained@,
            old(target).buf@.len(),
            old(target).width,
            old(target).height,
            old(target).stride,
            GridMetrics { cell_w, cell_h, pad: opts.padding },
            *old(state),
            glyphs@,
            *colors,
            *opts,
        ),
        final(target).buf@ == spec_frame_canvas(
            spec_copy_retained(old(target).buf@.len(), final(target).retained@),
            old(target).width,
            old(target).height,
            old(target).stride,
            GridMetrics { cell_w, cell_h, pad: opts.padding },
            *old(state),
            *colors,
            *opts,
            spec_frame_cursor_wide(old(target).retained@.len(), old(target).buf@.len(), *old(state)),
        ),
        final(state).row_dirty@ == if spec_redraw_kind(
            old(target).retained@.len() as usize,
            old(target).buf@.len() as usize,
            old(state).dirty,
        ) == RedrawKind::Clean {
            old(state).row_dirty@
        } else {
            Seq::new(old(state).row_dirty@.len(), |i: int| false)
        },
        final(state).cells@ == old(state).cells@,
        final(state).dirty == old(state).dirty,
        final(state).cols == old(state).cols,
        final(state).rows == old(state).rows,
        final(state).cursor == old(state).cursor,
        final(state).colors == old(state).colors,
{
    let width = target.width;
    let height = target.height;
    let stride = target.stride;
    let buf_len = target.buf.len();
    let grid = GridMetrics { cell_w, cell_h, pad: opts.padding };
    let kind = redraw_kind(target.retained.len(), buf_len, state.dirty);
    let cursor = state.cursor;
    let cursor_wide = match kind {
        RedrawKind::Full => {
            prepare_retained(target.retained, buf_len);
            assert(target.retained@ =~= spec_prepared(old(target).retained@, buf_len as nat));
            clear_background_alpha(target.retained.as_mut_slice(), width, height, stride, colors.background, opts.background_alpha);
            proof {
                lemma_clear_background_len(
                    spec_prepared(old(target).retained@, buf_len as nat),
                    width,
                    height,
                    stride,
                    colors.background,
                    opts.background_alpha,
                );
            }
            let mut s = Surface { buf: target.retained.as_mut_slice(), width, height, stride };
            draw_cells(&mut s, state, glyphs, &grid, colors, opts.bold_is_bright, opts.cursor_blink_visible, (cursor.x, cursor.y), false)
        },
        RedrawKind::Partial => {
            let d = state.dirty_row_indices(u16::MAX);
            proof {
                law_dirty_rows_sorted_bounded(state.row_dirty@, 65535);
            }
            let ds = d.as_slice();
            assert forall|j: int| 0 <= j < ds@.len() implies #[trigger] ds@[j] * grid.cell_h + grid.pad + grid.cell_h <= u32::MAX by {
                assert((ds@[j] as int) < state.row_dirty@.len());
                assert(((ds@[j] as int) * grid.cell_h) + grid.pad + grid.cell_h <= u32::MAX);
            }
            clear_dirty_rows_alpha(target.retained.as_mut_slice(), width, stride, &grid, ds, colors.background, opts.background_alpha);
            proof {
                lemma_clear_dirty_len(old(target).retained@, width, stride, grid, ds@, ds@.len(), colors.background, opts.background_alpha);
            }
            let mut s = Surface { buf: target.retained.as_mut_slice(), width, height, stride };
            draw_cells(&mut s, state, glyphs, &grid, colors, opts.bold_is_bright, opts.cursor_blink_visible, (cursor.x, cursor.y), true)
        },
        RedrawKind::Clean => false,
    };
    copy_retained_to_shm(target);
    let sel = match opts.selection {
        Some(((sc, sr), (ec, er))) => Some(SelectionRange { start_col: sc, start_row: sr, end_col: ec, end_row: er }),
        None => None,
    };
    let mut surface = Surface { buf: &mut *target.buf, width, height, stride };
    draw_overlays(
        &mut surface,
        &grid,
        state.cols,
        sel,
        (opts.selection_fg, opts.selection_bg),
        opts.search_highlights,
        &cursor,
        colors,
        opts.cursor_blink_visible,
        cursor_wide,
    );
    if let Some(r) = opts.scrollbar_thumb {
        draw_rect_alpha(&mut surface, &r, SCROLLBAR_COLOR, SCROLLBAR_ALPHA);
    }
    if let Some(p) = opts.preedit {
        draw_preedit(&mut surface, &grid, (cursor.x, cursor.y), p, colors, opts.preedit_glyphs);
    }
    if let Some(q) = opts.search_bar {
        draw_search_bar(&mut surface, &grid, q, opts.search_highlights.len(), opts.search_cursor, opts.search_bar_glyphs);
    }
}

/// Overlays never reach the retained cell content: two frames whose
/// options differ only in the overlays (the selection and its colours, the
/// search highlights, the scrollbar, the preedit and the search bar) leave
/// the same retained buffer.
pub proof fn law_retained_ignores_overlays(
    r0: Seq<u8>,
    buf_len: nat,
    w: u32,
    h: u32,
    s: u32,
    grid: GridMetrics,
    state: RenderState,
    glyphs: Seq<Vec<Option<GlyphImage>>>,
    colors: RenderColors,
    a: RenderOptions,
    b: RenderOptions,
)
    requires
        a.bold_is_bright == b.bold_is_bright,
        a.cursor_blink_visible == b.cursor_blink_visible,
        a.background_alpha == b.background_alpha,
    ensures
        spec_frame_retained(r0, buf_len, w, h, s, grid, state, glyphs, colors, a) == spec_frame_retained(
            r0,
            buf_len,
            w,
            h,
            s,
            grid,
            state,
            glyphs,
            colors,
            b,
        ),
{
}

} // verus!
