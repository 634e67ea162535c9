//! Drawing one terminal cell: background, text (procedural box drawing or
//! a font glyph) and decorations.

use vstd::prelude::*;
use super::{Bgra, GridMetrics, Rect, Surface};
use super::primitives::{draw_rect, surface_wf};
use super::cell_style::{
    draw_cell_decorations, resolve_cell_colors, sat_sub_u32, spec_cell_colors, spec_decorations, spec_fill,
};
use super::glyph::{draw_box_glyph, draw_glyph, glyph_fits, spec_box_glyph, spec_glyph};
use crate::boxdraw::{draw_box_char_into, glyph_alpha, is_box_drawing, spec_is_box_drawing};
use crate::font::GlyphImage;
use crate::terminal::render::{has_bit, CellStyle, RenderColors, STYLE_COLOR_NONE};

verus! {

/// Largest cell, in pixels, whose box-drawing mask is rendered.
pub const BOX_MASK_CAPACITY: usize = 4096;

/// Whether the cell's text is drawn procedurally as a box-drawing glyph.
pub open spec fn is_box_cell(cps: Seq<u32>) -> bool {
    cps.len() == 1 && spec_is_box_drawing(cps[0])
}

/// The buffer after drawing a cell's text at `origin`: a single
/// box-drawing character is drawn from its procedural mask when the cell
/// has at most 4096 pixels (and nothing otherwise); any other text is drawn
/// from the glyph the font produced for it, if any.
pub open spec fn spec_cell_text(
    buf: Seq<u8>,
    w: u32,
    h: u32,
    s: u32,
    origin: Rect,
    cps: Seq<u32>,
    glyph: Option<GlyphImage>,
    fg: Bgra,
) -> Seq<u8> {
    if is_box_cell(cps) {
        if origin.w * origin.h <= 4096 && origin.w > 0 && origin.h > 0 {
            spec_box_glyph(buf, w, h, s, origin, glyph_alpha(cps[0], origin.w as int, origin.h as int), fg)
        } else {
            buf
        }
    } else {
        match glyph {
            Some(g) => spec_glyph(buf, w, h, s, origin.x, origin.y, origin.h, g, fg),
            None => buf,
        }
    }
}

/// The glyph, if any, can be placed at `origin` on a `w` x `h` surface.
pub open spec fn glyph_ok(glyph: Option<GlyphImage>, origin: Rect, w: u32, h: u32) -> bool {
    match glyph {
        Some(g) => glyph_fits(origin.x, origin.y, origin.h, g, w, h),
        None => true,
    }
}

/// Draw a cell's text; `glyph` is what the font rasterized for the cell's
/// text (its first valid character), used unless the cell holds a single
/// box-drawing character.
pub fn draw_cell_text(surface: &mut Surface<'_>, origin: &Rect, codepoints: &[u32], glyph: Option<&GlyphImage>, fg_color: Bgra)
    requires
        surface_wf(old(surface).width, old(surface).height, old(surface).stride, old(surface).buf@.len() as int),
        !is_box_cell(codepoints@) ==> glyph_ok(
            match glyph {
                Some(g) => Some(*g),
                None => None,
            },
            *origin,
            old(surface).width,
            old(surface).height,
        ),
    ensures
        final(final(surface).buf)@ == final(old(surface).buf)@,
        final(surface).width == old(surface).width,
        final(surface).height == old(surface).height,
        final(surface).stride == old(surface).stride,
        final(surface).buf@.len() == old(surface).buf@.len(),
        final(surface).buf@ == spec_cell_text(
            old(surface).buf@,
            old(surface).width,
            old(surface).height,
            old(surface).stride,
            *origin,
            codepoints@,
            match glyph {
                Some(g) => Some(*g),
                None => None,
            },
            fg_color,
        ),
{
    if codepoints.len() == 1 && is_box_drawing(codepoints[0]) {
        let cp = codepoints[0];
        assert(origin.w * origin.h <= u32::MAX * u32::MAX) by (nonlinear_arith)
            requires
                origin.w <= u32::MAX,
                origin.h <= u32::MAX,
        ;
        let needed: u64 = origin.w as u64 * origin.h as u64;
        if needed <= 4096 && origin.w > 0 && origin.h > 0 {
            let mut stack_alpha = [0u8; 4096];
            let handled = draw_box_char_into(cp, origin.w, origin.h, &mut stack_alpha);
            let n = needed as usize;
            let alpha_slice = vstd::slice::slice_subrange(stack_alpha.as_slice(), 0, n);
            assert(alpha_slice@ =~= glyph_alpha(cp, origin.w as int, origin.h as int));
            assert(origin.h * origin.w == origin.w * origin.h) by (nonlinear_arith);
            if handled {
                draw_box_glyph(surface, origin, alpha_slice, fg_color);
            }
        }
        return;
    }
    match glyph {
        Some(g) => {
            draw_glyph(surface, origin.x, origin.y, origin.h, g, fg_color);
        },
        None => {},
    }
}

/// Whether the cell's text is drawn: it has text, is not invisible, and is
/// not blinking in the off phase.
pub open spec fn text_visible(cps: Seq<u32>, style: CellStyle, cursor_blink_visible: bool) -> bool {
    cps.len() > 0 && !has_bit(style.attrs.0, 32) && (!has_bit(style.attrs.0, 8) || cursor_blink_visible)
}

/// A grid coordinate as `u32`, or 0 when it does not fit.
pub open spec fn coord_u32(v: usize) -> u32 {
    if v <= u32::MAX { v as u32 } else { 0 }
}

/// The rectangle of the cell at `(row, col)`: two cells wide for a wide
/// character.
pub open spec fn cell_area(grid: GridMetrics, row: usize, col: usize, is_wide: bool) -> Rect {
    Rect {
        x: (coord_u32(col) * grid.cell_w + grid.pad) as u32,
        y: (coord_u32(row) * grid.cell_h + grid.pad) as u32,
        w: (if is_wide { grid.cell_w * 2 } else { grid.cell_w as int }) as u32,
        h: grid.cell_h,
    }
}

/// The cell's rectangle and decorations fit in `u32`.
pub open spec fn cell_fits(grid: GridMetrics, row: usize, col: usize) -> bool {
    &&& coord_u32(col) * grid.cell_w + grid.pad + grid.cell_w * 2 <= u32::MAX
    &&& coord_u32(row) * grid.cell_h + grid.pad + grid.cell_h + 2 <= u32::MAX
}

/// The buffer after drawing a cell: its background when the style sets one
/// or inverts, its text when visible, then its decorations.
pub open spec fn spec_draw_cell(
    buf: Seq<u8>,
    w: u32,
    h: u32,
    s: u32,
    grid: GridMetrics,
    colors: RenderColors,
    bold_is_bright: bool,
    cursor_blink_visible: bool,
    row: usize,
    col: usize,
    cps: Seq<u32>,
    style: CellStyle,
    is_wide: bool,
    glyph: Option<GlyphImage>,
) -> Seq<u8> {
    let area = cell_area(grid, row, col, is_wide);
    let (fg, bg) = spec_cell_colors(style, colors, bold_is_bright);
    let b1 = if style.bg_tag != STYLE_COLOR_NONE || has_bit(style.attrs.0, 16) {
        spec_fill(buf, w, h, s, area.x, area.y, area.w, area.h, bg)
    } else {
        buf
    };
    let b2 = if text_visible(cps, style, cursor_blink_visible) {
        spec_cell_text(b1, w, h, s, area, cps, glyph, fg)
    } else {
        b1
    };
    spec_decorations(b2, w, h, s, style, colors.palette@, area, fg)
}

/// Draw one cell of the grid. Returns whether it is a wide character under
/// the cursor at `cursor_pos` (column, row), which widens the cursor.
pub fn draw_cell(
    surface: &mut Surface<'_>,
    grid: &GridMetrics,
    colors: &RenderColors,
    bold_is_bright: bool,
    cursor_blink_visible: bool,
    cursor_pos: (usize, usize),
    row: usize,
    col: usize,
    codepoints: &[u32],
    style: &CellStyle,
    is_wide: bool,
    glyph: Option<&GlyphImage>,
) -> (cursor_wide: bool)
    requires
        surface_wf(old(surface).width, old(surface).height, old(surface).stride, old(surface).buf@.len() as int),
        cell_fits(*grid, row, col),
        !is_box_cell(codepoints@) ==> glyph_ok(
            match glyph {
                Some(g) => Some(*g),
                None => None,
            },
            cell_area(*grid, row, col, is_wide),
            old(surface).width,
            old(surface).height,
        ),
    ensures
        final(final(surface).buf)@ == final(old(surface).buf)@,
        cursor_wide == (is_wide && col == cursor_pos.0 && row == cursor_pos.1),
        final(surface).buf@.len() == old(surface).buf@.len(),
        final(surface).width == old(surface).width,
        final(surface).height == old(surface).height,
        final(surface).stride == old(surface).stride,
        final(surface).buf@ == spec_draw_cell(
            old(surface).buf@,
            old(surface).width,
            old(surface).height,
            old(surface).stride,
            *grid,
            *colors,
            bold_is_bright,
            cursor_blink_visible,
            row,
            col,
            codepoints@,
            *style,
            is_wide,
            match glyph {
                Some(g) => Some(*g),
                None => None,
            },
        ),
{
    let cursor_wide = is_wide && col == cursor_pos.0 && row == cursor_pos.1;
    let c32: u32 = if col <= u32::MAX as usize { col as u32 } else { 0 };
    let r32: u32 = if row <= u32::MAX as usize { row as u32 } else { 0 };
    assert(c32 * grid.cell_w <= c32 * grid.cell_w + grid.pad);
    assert(r32 * grid.cell_h <= r32 * grid.cell_h + grid.pad);
    let origin_x = c32 * grid.cell_w + grid.pad;
    let origin_y = r32 * grid.cell_h + grid.pad;
    let span_w = if is_wide { grid.cell_w * 2 } else { grid.cell_w };
    let (fg_color, bg_color) = resolve_cell_colors(style, colors, bold_is_bright);
    let area = Rect { x: origin_x, y: origin_y, w: span_w, h: grid.cell_h };
    assert(area == cell_area(*grid, row, col, is_wide));
    if style.bg_tag != STYLE_COLOR_NONE || style.attrs.inverse() {
        draw_rect(surface, &area, bg_color);
    }
    if codepoints.len() > 0 && !style.attrs.invisible() && (!style.attrs.blink() || cursor_blink_visible) {
        draw_cell_text(surface, &area, codepoints, glyph, fg_color);
    }
    draw_cell_decorations(surface, style, colors, &area, fg_color);
    cursor_wide
}

} // verus!
