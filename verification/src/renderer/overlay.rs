//! Overlays drawn over the cell content: the selection and search-match
//! highlights.

use vstd::prelude::*;
use super::{Bgra, GridMetrics, Rect, SearchHighlight, SelectionRange, Surface};
use super::primitives::{blend_rect_bytes, clamp_end, draw_rect_alpha, surface_wf};

verus! {

/// Selection colour when none is configured.
pub const SELECTION_DEFAULT_COLOR: Bgra = (100, 150, 255);

/// Opacity of a configured selection colour.
pub const SELECTION_CUSTOM_ALPHA: u8 = 180;

/// Opacity of the default selection colour.
pub const SELECTION_DEFAULT_ALPHA: u8 = 80;

/// Colour and opacity of a search match.
pub const SEARCH_MATCH_COLOR: Bgra = (255, 255, 0);
pub const SEARCH_MATCH_ALPHA: u8 = 60;

/// Colour and opacity of the current search match.
pub const SEARCH_CURRENT_COLOR: Bgra = (255, 165, 0);
pub const SEARCH_CURRENT_ALPHA: u8 = 100;

/// The buffer after blending `color` over the rectangle `(x, y, rw, rh)`
/// clamped to the surface.
pub open spec fn spec_blend_rect(
    buf: Seq<u8>,
    w: u32,
    h: u32,
    s: u32,
    x: u32,
    y: u32,
    rw: u32,
    rh: u32,
    color: Bgra,
    alpha: u8,
) -> Seq<u8> {
    blend_rect_bytes(
        buf,
        s as int,
        x as int,
        clamp_end(x, rw, w) as int,
        y as int,
        clamp_end(y, rh, h) as int,
        color,
        alpha as int,
    )
}

/// The columns highlighted on `row` of a selection over a grid `cols`
/// wide: a single-row selection spans its own columns; otherwise the first
/// row runs to the last column, the last row starts at column 0, and the
/// rows between are whole.
pub open spec fn sel_span(sel: SelectionRange, cols: u16, row: int) -> (int, int) {
    let last = if cols >= 1 { cols - 1 } else { 0 };
    if sel.start_row == sel.end_row {
        (sel.start_col as int, sel.end_col as int)
    } else if row == sel.start_row {
        (sel.start_col as int, last)
    } else if row == sel.end_row {
        (0, sel.end_col as int)
    } else {
        (0, last)
    }
}

/// Row `row` of the selection is a well-formed span whose rectangle fits in
/// `u32`.
pub open spec fn sel_row_fits(sel: SelectionRange, cols: u16, grid: GridMetrics, row: int) -> bool {
    let (l, r) = sel_span(sel, cols, row);
    &&& l <= r
    &&& l * grid.cell_w + grid.pad + (r - l + 1) * grid.cell_w <= u32::MAX
    &&& row * grid.cell_h + grid.pad + grid.cell_h <= u32::MAX
}

/// The buffer after highlighting the first `k` rows of the selection.
pub open spec fn spec_selection(
    buf: Seq<u8>,
    w: u32,
    h: u32,
    s: u32,
    grid: GridMetrics,
    sel: SelectionRange,
    cols: u16,
    color: Bgra,
    alpha: u8,
    k: nat,
) -> Seq<u8>
    decreases k,
{
    if k == 0 {
        buf
    } else {
        let prev = spec_selection(buf, w, h, s, grid, sel, cols, color, alpha, (k - 1) as nat);
        let row = sel.start_row + k - 1;
        let (l, r) = sel_span(sel, cols, row);
        spec_blend_rect(
            prev,
            w,
            h,
            s,
            (l * grid.cell_w + grid.pad) as u32,
            (row * grid.cell_h + grid.pad) as u32,
            ((r - l + 1) * grid.cell_w) as u32,
            grid.cell_h,
            color,
            alpha,
        )
    }
}

/// Number of rows a selection covers.
pub open spec fn sel_rows(sel: SelectionRange) -> nat {
    if sel.start_row <= sel.end_row { (sel.end_row - sel.start_row + 1) as nat } else { 0 }
}

/// The colour and opacity of the selection: the configured background
/// colour, or the default blue at a lower opacity.
pub open spec fn selection_paint(selection_bg: Option<Bgra>) -> (Bgra, u8) {
    match selection_bg {
        Some(c) => (c, SELECTION_CUSTOM_ALPHA),
        None => (SELECTION_DEFAULT_COLOR, SELECTION_DEFAULT_ALPHA),
    }
}

/// Draw the selection highlight overlay over a grid `cols` columns wide.
pub fn draw_selection(
    surface: &mut Surface<'_>,
    grid: &GridMetrics,
    sel: &SelectionRange,
    cols: u16,
    selection_colors: (Option<Bgra>, Option<Bgra>),
)
    requires
        surface_wf(old(surface).width, old(surface).height, old(surface).stride, old(surface).buf@.len() as int),
        forall|row: int| sel.start_row <= row <= sel.end_row ==> #[trigger] sel_row_fits(*sel, cols, *grid, row),
    ensures
        final(final(surface).buf)@ == final(old(surface).buf)@,
        final(surface).width == old(surface).width,
        final(surface).height == old(surface).height,
        final(surface).stride == old(surface).stride,
        final(surface).buf@.len() == old(surface).buf@.len(),
        final(surface).buf@ == spec_selection(
            old(surface).buf@,
            old(surface).width,
            old(surface).height,
            old(surface).stride,
            *grid,
            *sel,
            cols,
            selection_paint(selection_colors.1).0,
            selection_paint(selection_colors.1).1,
            sel_rows(*sel),
        ),
{
    let sel_color: Bgra = match selection_colors.1 {
        Some(c) => c,
        None => SELECTION_DEFAULT_COLOR,
    };
    let alpha = if selection_colors.1.is_some() { SELECTION_CUSTOM_ALPHA } else { SELECTION_DEFAULT_ALPHA };
    if sel.start_row > sel.end_row {
        return;
    }
    let last: u16 = if cols >= 1 { cols - 1 } else { 0 };
    let ghost b0 = surface.buf@;
    let mut row: u32 = sel.start_row as u32;
    while row <= sel.end_row as u32
        invariant
            final(surface.buf)@ == final(old(surface).buf)@,
            sel.start_row <= row <= sel.end_row + 1,
            surface.width == old(surface).width,
            surface.height == old(surface).height,
            surface.stride == old(surface).stride,
            surface.buf@.len() == b0.len(),
            b0 == old(surface).buf@,
            surface_wf(surface.width, surface.height, surface.stride, b0.len() as int),
            forall|r: int| sel.start_row <= r <= sel.end_row ==> #[trigger] sel_row_fits(*sel, cols, *grid, r),
            last == (if cols >= 1 { cols - 1 } else { 0 }),
            sel_color == selection_paint(selection_colors.1).0,
            alpha == selection_paint(selection_colors.1).1,
            surface.buf@ == spec_selection(
                b0,
                surface.width,
                surface.height,
                surface.stride,
                *grid,
                *sel,
                cols,
                sel_color,
                alpha,
                (row - sel.start_row) as nat,
            ),
        decreases sel.end_row + 1 - row,
    {
        let (left, right): (u16, u16) = if sel.start_row == sel.end_row {
            (sel.start_col, sel.end_col)
        } else if row == sel.start_row as u32 {
            (sel.start_col, last)
        } else if row == sel.end_row as u32 {
            (0, sel.end_col)
        } else {
            (0, last)
        };
        assert(sel_row_fits(*sel, cols, *grid, row as int));
        assert(left * grid.cell_w <= left * grid.cell_w + grid.pad);
        assert(row * grid.cell_h <= row * grid.cell_h + grid.pad);
        let rx = left as u32 * grid.cell_w + grid.pad;
        let ry = row * grid.cell_h + grid.pad;
        let sel_w = (right as u32 - left as u32 + 1) * grid.cell_w;
        let rect = Rect { x: rx, y: ry, w: sel_w, h: grid.cell_h };
        draw_rect_alpha(surface, &rect, sel_color, alpha);
        row = row + 1;
    }
}

/// The rectangle of a search match: from the left edge of its first column
/// to the right edge of its last.
pub open spec fn highlight_rect(grid: GridMetrics, hl: SearchHighlight) -> Rect {
    let y = hl.row * grid.cell_h + grid.pad;
    let x0 = hl.start_col * grid.cell_w + grid.pad;
    let x1 = (hl.end_col + 1) * grid.cell_w + grid.pad;
    Rect { x: x0 as u32, y: y as u32, w: (if x1 >= x0 { x1 - x0 } else { 0 }) as u32, h: grid.cell_h }
}

/// The rectangle of a search match fits in `u32`.
pub open spec fn highlight_fits(grid: GridMetrics, hl: SearchHighlight) -> bool {
    &&& (hl.end_col + 1) * grid.cell_w + grid.pad <= u32::MAX
    &&& hl.start_col * grid.cell_w + grid.pad <= u32::MAX
    &&& hl.row * grid.cell_h + grid.pad + grid.cell_h <= u32::MAX
}

/// Colour and opacity of a match: orange for the current one, yellow else.
pub open spec fn highlight_paint(hl: SearchHighlight) -> (Bgra, u8) {
    if hl.is_current {
        (SEARCH_CURRENT_COLOR, SEARCH_CURRENT_ALPHA)
    } else {
        (SEARCH_MATCH_COLOR, SEARCH_MATCH_ALPHA)
    }
}

/// The buffer after highlighting the first `k` matches.
pub open spec fn spec_highlights(
    buf: Seq<u8>,
    w: u32,
    h: u32,
    s: u32,
    grid: GridMetrics,
    hls: Seq<SearchHighlight>,
    k: nat,
) -> Seq<u8>
    decreases k,
{
    if k == 0 {
        buf
    } else {
        let prev = spec_highlights(buf, w, h, s, grid, hls, (k - 1) as nat);
        let hl = hls[k - 1];
        let r = highlight_rect(grid, hl);
        spec_blend_rect(prev, w, h, s, r.x, r.y, r.w, r.h, highlight_paint(hl).0, highlight_paint(hl).1)
    }
}

/// Draw the search match highlights, in order.
pub fn draw_search_highlights(surface: &mut Surface<'_>, grid: &GridMetrics, highlights: &[SearchHighlight])
    requires
        surface_wf(old(surface).width, old(surface).height, old(surface).stride, old(surface).buf@.len() as int),
        forall|i: int| 0 <= i < highlights@.len() ==> #[trigger] highlight_fits(*grid, highlights@[i]),
    ensures
        final(final(surface).buf)@ == final(old(surface).buf)@,
        final(surface).width == old(surface).width,
        final(surface).height == old(surface).height,
        final(surface).stride == old(surface).stride,
        final(surface).buf@.len() == old(surface).buf@.len(),
        final(surface).buf@ == spec_highlights(
            old(surface).buf@,
            old(surface).width,
            old(surface).height,
            old(surface).stride,
            *grid,
            highlights@,
            highlights@.len(),
        ),
{
    let ghost b0 = surface.buf@;
    let mut i: usize = 0;
    while i < highlights.len()
        invariant
            final(surface.buf)@ == final(old(surface).buf)@,
            i <= highlights@.len(),
            surface.width == old(surface).width,
            surface.height == old(surface).height,
            surface.stride == old(surface).stride,
            surface.buf@.len() == b0.len(),
            b0 == old(surface).buf@,
            surface_wf(surface.width, surface.height, surface.stride, b0.len() as int),
            forall|j: int| 0 <= j < highlights@.len() ==> #[trigger] highlight_fits(*grid, highlights@[j]),
            surface.buf@ == spec_highlights(
                b0,
                surface.width,
                surface.height,
                surface.stride,
                *grid,
                highlights@,
                i as nat,
            ),
        decreases highlights@.len() - i,
    {
        let hl = highlights[i];
        assert(highlight_fits(*grid, highlights@[i as int]));
        assert(hl.row * grid.cell_h <= hl.row * grid.cell_h + grid.pad);
        assert(hl.start_col * grid.cell_w <= hl.start_col * grid.cell_w + grid.pad);
        assert((hl.end_col + 1) * grid.cell_w <= (hl.end_col + 1) * grid.cell_w + grid.pad);
        let y = hl.row as u32 * grid.cell_h + grid.pad;
        let x_start = hl.start_col as u32 * grid.cell_w + grid.pad;
        let x_end = (hl.end_col as u32 + 1) * grid.cell_w + grid.pad;
        let w = x_end.saturating_sub(x_start);
        let rect = Rect { x: x_start, y, w, h: grid.cell_h };
        let (color, alpha) = if hl.is_current {
            (SEARCH_CURRENT_COLOR, SEARCH_CURRENT_ALPHA)
        } else {
            (SEARCH_MATCH_COLOR, SEARCH_MATCH_ALPHA)
        };
        draw_rect_alpha(surface, &rect, color, alpha);
        i = i + 1;
    }
}

} // verus!
