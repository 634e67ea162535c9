//! Which pixel rows each drawing step can touch: a cell writes only inside
//! its own pixel rows, as long as its glyph stays inside the cell.

use vstd::prelude::*;
use super::{Bgra, Rect};
use super::primitives::{fill_rect_bytes, spec_set_pixel, clamp_end};
use super::cell_style::{sat_add_u32, spec_decorations, spec_fill, spec_pattern, spec_underline, underline_y, pattern_dy};
use super::cells::{cell_area, cell_fits, coord_u32, spec_cell_text, spec_draw_cell, text_visible};
use super::cell_style::spec_cell_colors;
use super::GridMetrics;
use super::background::{in_pixel_rows, law_clear_dirty_keeps_clean_rows, lemma_clear_dirty_len, spec_clear_dirty};
use super::frame::{
    cell_ok, cells_fit, row_drawn, spec_draw_row, spec_draw_rows, spec_frame_retained, spec_redraw_kind, RedrawKind,
    RenderOptions,
};
use crate::terminal::render::{law_dirty_rows_sorted_bounded, spec_dirty_rows};
use crate::terminal::state::{spec_cell_view, RawCell, RenderState};
use crate::terminal::render::{has_bit, RenderColors, STYLE_COLOR_NONE};
use crate::terminal::render::{CellStyle, spec_resolve_color};
use super::glyph::{spec_mask_blit, spec_box_glyph, spec_glyph, glyph_y0, max_int, min_int};
use crate::font::GlyphImage;

verus! {

/// `b` differs from `a` only in bytes whose pixel row is in `y0 .. y1`.
pub open spec fn same_outside_rows(a: Seq<u8>, b: Seq<u8>, s: int, y0: int, y1: int) -> bool {
    &&& a.len() == b.len()
    &&& forall|i: int| 0 <= i < a.len() && !(y0 <= i / s < y1) ==> #[trigger] b[i] == a[i]
}

pub proof fn lemma_same_refl(a: Seq<u8>, s: int, y0: int, y1: int)
    ensures
        same_outside_rows(a, a, s, y0, y1),
{
}

pub proof fn lemma_same_trans(a: Seq<u8>, b: Seq<u8>, c: Seq<u8>, s: int, y0: int, y1: int)
    requires
        same_outside_rows(a, b, s, y0, y1),
        same_outside_rows(b, c, s, y0, y1),
    ensures
        same_outside_rows(a, c, s, y0, y1),
{
    assert forall|i: int| 0 <= i < a.len() && !(y0 <= i / s < y1) implies #[trigger] c[i] == a[i] by {
        assert(b[i] == a[i]);
    }
}

pub proof fn lemma_same_widen(a: Seq<u8>, b: Seq<u8>, s: int, y0: int, y1: int, lo: int, hi: int)
    requires
        same_outside_rows(a, b, s, y0, y1),
        y0 >= y1 || (lo <= y0 && y1 <= hi),
    ensures
        same_outside_rows(a, b, s, lo, hi),
{
    assert forall|i: int| 0 <= i < a.len() && !(lo <= i / s < hi) implies #[trigger] b[i] == a[i] by {
        assert(!(y0 <= i / s < y1));
    }
}

pub proof fn lemma_fill_rect_local(buf: Seq<u8>, s: int, x0: int, x1: int, y0: int, y1: int, color: Bgra)
    ensures
        same_outside_rows(buf, fill_rect_bytes(buf, s, x0, x1, y0, y1, color), s, y0, y1),
{
}

pub proof fn lemma_spec_fill_local(buf: Seq<u8>, w: u32, h: u32, s: u32, x: u32, y: u32, rw: u32, rh: u32, color: Bgra)
    ensures
        same_outside_rows(buf, spec_fill(buf, w, h, s, x, y, rw, rh, color), s as int, y as int, y + rh),
{
    let y1 = clamp_end(y, rh, h) as int;
    lemma_fill_rect_local(buf, s as int, x as int, clamp_end(x, rw, w) as int, y as int, y1, color);
    lemma_same_widen(buf, spec_fill(buf, w, h, s, x, y, rw, rh, color), s as int, y as int, y1, y as int, y + rh);
}

pub proof fn lemma_set_pixel_local(buf: Seq<u8>, w: u32, h: u32, s: u32, px: u32, py: u32, color: Bgra)
    requires
        w * 4 <= s,
    ensures
        same_outside_rows(buf, spec_set_pixel(buf, w, h, s, px, py, color), s as int, py as int, py + 1),
{
    let off = py * s + px * 4;
    let r = spec_set_pixel(buf, w, h, s, px, py, color);
    if px < w && py < h && off + 4 <= buf.len() {
        assert forall|i: int| 0 <= i < buf.len() && !(py <= i / (s as int) < py + 1) implies #[trigger] r[i] == buf[i] by {
            if off <= i < off + 4 {
                assert(i / (s as int) == py) by (nonlinear_arith)
                    requires
                        off == py * s + px * 4,
                        off <= i < off + 4,
                        px < w,
                        w * 4 <= s,
                ;
            }
        }
    }
}

pub proof fn lemma_mask_blit_local(
    buf: Seq<u8>,
    s: int,
    x0: int,
    x1: int,
    y0: int,
    y1: int,
    mask: Seq<u8>,
    mask_w: int,
    mr0: int,
    mc0: int,
    fg: Bgra,
)
    ensures
        same_outside_rows(buf, spec_mask_blit(buf, s, x0, x1, y0, y1, mask, mask_w, mr0, mc0, fg), s, y0, y1),
{
}

pub proof fn lemma_pattern_local(buf: Seq<u8>, w: u32, h: u32, s: u32, px: u32, uy: u32, variant: i32, color: Bgra, n: nat)
    requires
        w * 4 <= s,
    ensures
        same_outside_rows(buf, spec_pattern(buf, w, h, s, px, uy, variant, color, n), s as int, uy as int, uy + 2),
    decreases n,
{
    if n == 0 {
        lemma_same_refl(buf, s as int, uy as int, uy + 2);
    } else {
        lemma_pattern_local(buf, w, h, s, px, uy, variant, color, (n - 1) as nat);
        let prev = spec_pattern(buf, w, h, s, px, uy, variant, color, (n - 1) as nat);
        let x_off = n - 1;
        let dy = pattern_dy(variant, x_off);
        assert(0 <= dy <= 1);
        let row = sat_add_u32(uy, dy);
        lemma_set_pixel_local(prev, w, h, s, (px + x_off) as u32, row, color);
        lemma_same_widen(
            prev,
            spec_set_pixel(prev, w, h, s, (px + x_off) as u32, row, color),
            s as int,
            row as int,
            row + 1,
            uy as int,
            uy + 2,
        );
        lemma_same_trans(
            buf,
            prev,
            spec_set_pixel(prev, w, h, s, (px + x_off) as u32, row, color),
            s as int,
            uy as int,
            uy + 2,
        );
    }
}

pub proof fn lemma_underline_local(
    buf: Seq<u8>,
    w: u32,
    h: u32,
    s: u32,
    px: u32,
    py: u32,
    cell_w: u32,
    cell_h: u32,
    variant: i32,
    color: Bgra,
)
    requires
        w * 4 <= s,
        cell_h >= 2,
        py + cell_h <= u32::MAX,
    ensures
        same_outside_rows(
            buf,
            spec_underline(buf, w, h, s, px, py, cell_w, cell_h, variant, color),
            s as int,
            py as int,
            py + cell_h,
        ),
{
    let uy = underline_y(py, cell_h);
    assert(uy == py + cell_h - 2);
    let lo = py as int;
    let hi = py + cell_h;
    let out = spec_underline(buf, w, h, s, px, py, cell_w, cell_h, variant, color);
    if variant == 0 {
        lemma_same_refl(buf, s as int, lo, hi);
    } else if variant == 2 && cell_h >= 3 {
        let b1 = spec_fill(buf, w, h, s, px, (uy - 1) as u32, cell_w, 1, color);
        lemma_spec_fill_local(buf, w, h, s, px, (uy - 1) as u32, cell_w, 1, color);
        lemma_same_widen(buf, b1, s as int, uy - 1, uy as int, lo, hi);
        lemma_spec_fill_local(b1, w, h, s, px, (uy + 1) as u32, cell_w, 1, color);
        lemma_same_widen(b1, out, s as int, uy + 1, uy + 2, lo, hi);
        lemma_same_trans(buf, b1, out, s as int, lo, hi);
    } else if 3 <= variant <= 5 {
        lemma_pattern_local(buf, w, h, s, px, uy, variant, color, cell_w as nat);
        lemma_same_widen(buf, out, s as int, uy as int, uy + 2, lo, hi);
    } else {
        lemma_spec_fill_local(buf, w, h, s, px, uy, cell_w, 1, color);
        lemma_same_widen(buf, out, s as int, uy as int, uy + 1, lo, hi);
    }
}

pub proof fn lemma_decorations_local(buf: Seq<u8>, w: u32, h: u32, s: u32, style: CellStyle, palette: Seq<Bgra>, area: Rect, fg: Bgra)
    requires
        w * 4 <= s,
        area.h >= 2,
        area.y + area.h <= u32::MAX,
    ensures
        same_outside_rows(
            buf,
            spec_decorations(buf, w, h, s, style, palette, area, fg),
            s as int,
            area.y as int,
            area.y + area.h,
        ),
{
    let lo = area.y as int;
    let hi = area.y + area.h;
    let ucol = spec_resolve_color(
        style.underline_color_tag,
        style.underline_color_palette,
        style.underline_color_rgb,
        palette,
        fg,
    );
    let b1 = if style.underline > 0 {
        spec_underline(buf, w, h, s, area.x, area.y, area.w, area.h, style.underline, ucol)
    } else {
        buf
    };
    if style.underline > 0 {
        lemma_underline_local(buf, w, h, s, area.x, area.y, area.w, area.h, style.underline, ucol);
    } else {
        lemma_same_refl(buf, s as int, lo, hi);
    }
    let sy = (area.y + area.h / 2) as u32;
    let b2 = if style.attrs.0 & 64 != 0 { spec_fill(b1, w, h, s, area.x, sy, area.w, 1, fg) } else { b1 };
    if style.attrs.0 & 64 != 0 {
        lemma_spec_fill_local(b1, w, h, s, area.x, sy, area.w, 1, fg);
        lemma_same_widen(b1, b2, s as int, sy as int, sy + 1, lo, hi);
    } else {
        lemma_same_refl(b1, s as int, lo, hi);
    }
    lemma_same_trans(buf, b1, b2, s as int, lo, hi);
    let b3 = if style.attrs.0 & 128 != 0 { spec_fill(b2, w, h, s, area.x, area.y, area.w, 1, fg) } else { b2 };
    if style.attrs.0 & 128 != 0 {
        lemma_spec_fill_local(b2, w, h, s, area.x, area.y, area.w, 1, fg);
        lemma_same_widen(b2, b3, s as int, lo, lo + 1, lo, hi);
    } else {
        lemma_same_refl(b2, s as int, lo, hi);
    }
    lemma_same_trans(buf, b2, b3, s as int, lo, hi);
}

/// The glyph, if any, lies within the pixel rows of its cell.
pub open spec fn glyph_in_rows(glyph: Option<GlyphImage>, cell_y: u32, cell_h: u32) -> bool {
    match glyph {
        Some(g) => glyph_y0(cell_y, cell_h, g.top) >= cell_y && glyph_y0(cell_y, cell_h, g.top) + g.height <= cell_y + cell_h,
        None => true,
    }
}

pub proof fn lemma_glyph_local(buf: Seq<u8>, w: u32, h: u32, s: u32, cell_x: u32, cell_y: u32, cell_h: u32, g: GlyphImage, fg: Bgra)
    requires
        glyph_in_rows(Some(g), cell_y, cell_h),
    ensures
        same_outside_rows(
            buf,
            spec_glyph(buf, w, h, s, cell_x, cell_y, cell_h, g, fg),
            s as int,
            cell_y as int,
            cell_y + cell_h,
        ),
{
    let gy0 = glyph_y0(cell_y, cell_h, g.top);
    let gx0 = super::glyph::glyph_x0(cell_x, g.left);
    let row_start = max_int(0, -gy0);
    let row_end = max_int(min_int(g.height as int, h - gy0), 0);
    let col_start = max_int(0, -gx0);
    let col_end = max_int(min_int(g.width as int, w - gx0), 0);
    if row_start >= row_end || col_start >= col_end {
        lemma_same_refl(buf, s as int, cell_y as int, cell_y + cell_h);
    } else {
        let oy = max_int(gy0, 0);
        let ox = max_int(gx0, 0);
        lemma_mask_blit_local(buf, s as int, ox, ox + (col_end - col_start), oy, oy + (row_end - row_start), g.alpha@, g.width as int, row_start, col_start, fg);
        lemma_same_widen(
            buf,
            spec_glyph(buf, w, h, s, cell_x, cell_y, cell_h, g, fg),
            s as int,
            oy,
            oy + (row_end - row_start),
            cell_y as int,
            cell_y + cell_h,
        );
    }
}

pub proof fn lemma_box_glyph_local(buf: Seq<u8>, w: u32, h: u32, s: u32, rect: Rect, alpha: Seq<u8>, fg: Bgra)
    ensures
        same_outside_rows(buf, spec_box_glyph(buf, w, h, s, rect, alpha, fg), s as int, rect.y as int, rect.y + rect.h),
{
    let row_end = min_int(rect.h as int, max_int(h - rect.y, 0));
    let col_end = min_int(rect.w as int, max_int(w - rect.x, 0));
    if row_end == 0 || col_end == 0 {
        lemma_same_refl(buf, s as int, rect.y as int, rect.y + rect.h);
    } else {
        lemma_mask_blit_local(buf, s as int, rect.x as int, rect.x + col_end, rect.y as int, rect.y + row_end, alpha, rect.w as int, 0, 0, fg);
        lemma_same_widen(
            buf,
            spec_box_glyph(buf, w, h, s, rect, alpha, fg),
            s as int,
            rect.y as int,
            rect.y + row_end,
            rect.y as int,
            rect.y + rect.h,
        );
    }
}

pub proof fn lemma_cell_text_local(buf: Seq<u8>, w: u32, h: u32, s: u32, origin: Rect, cps: Seq<u32>, glyph: Option<GlyphImage>, fg: Bgra)
    requires
        glyph_in_rows(glyph, origin.y, origin.h),
    ensures
        same_outside_rows(
            buf,
            spec_cell_text(buf, w, h, s, origin, cps, glyph, fg),
            s as int,
            origin.y as int,
            origin.y + origin.h,
        ),
{
    let out = spec_cell_text(buf, w, h, s, origin, cps, glyph, fg);
    if super::cells::is_box_cell(cps) {
        if origin.w * origin.h <= 4096 && origin.w > 0 && origin.h > 0 {
            lemma_box_glyph_local(buf, w, h, s, origin, crate::boxdraw::glyph_alpha(cps[0], origin.w as int, origin.h as int), fg);
        } else {
            lemma_same_refl(buf, s as int, origin.y as int, origin.y + origin.h);
        }
    } else {
        match glyph {
            Some(g) => lemma_glyph_local(buf, w, h, s, origin.x, origin.y, origin.h, g, fg),
            None => lemma_same_refl(buf, s as int, origin.y as int, origin.y + origin.h),
        }
    }
}

/// First pixel row of terminal row `row`.
pub open spec fn row_top(grid: GridMetrics, row: int) -> int {
    row * grid.cell_h + grid.pad
}

pub proof fn lemma_draw_cell_local(
    buf: Seq<u8>,
    w: u32,
    h: u32,
    s: u32,
    grid: GridMetrics,
    colors: RenderColors,
    bold_is_bright: bool,
    cursor_blink_visible: bool,
    row: usize,
    col: usize,
    cps: Seq<u32>,
    style: CellStyle,
    is_wide: bool,
    glyph: Option<GlyphImage>,
)
    requires
        w * 4 <= s,
        grid.cell_h >= 2,
        row <= u32::MAX,
        cell_fits(grid, row, col),
        glyph_in_rows(glyph, row_top(grid, row as int) as u32, grid.cell_h),
    ensures
        same_outside_rows(
            buf,
            spec_draw_cell(buf, w, h, s, grid, colors, bold_is_bright, cursor_blink_visible, row, col, cps, style, is_wide, glyph),
            s as int,
            row_top(grid, row as int),
            row_top(grid, row as int) + grid.cell_h,
        ),
{
    let area = cell_area(grid, row, col, is_wide);
    assert(coord_u32(row) == row);
    assert(area.y == row_top(grid, row as int));
    let lo = area.y as int;
    let hi = area.y + grid.cell_h;
    let (fg, bg) = spec_cell_colors(style, colors, bold_is_bright);
    let b1 = if style.bg_tag != STYLE_COLOR_NONE || has_bit(style.attrs.0, 16) {
        spec_fill(buf, w, h, s, area.x, area.y, area.w, area.h, bg)
    } else {
        buf
    };
    if style.bg_tag != STYLE_COLOR_NONE || has_bit(style.attrs.0, 16) {
        lemma_spec_fill_local(buf, w, h, s, area.x, area.y, area.w, area.h, bg);
    } else {
        lemma_same_refl(buf, s as int, lo, hi);
    }
    let b2 = if text_visible(cps, style, cursor_blink_visible) {
        spec_cell_text(b1, w, h, s, area, cps, glyph, fg)
    } else {
        b1
    };
    if text_visible(cps, style, cursor_blink_visible) {
        lemma_cell_text_local(b1, w, h, s, area, cps, glyph, fg);
    } else {
        lemma_same_refl(b1, s as int, lo, hi);
    }
    lemma_same_trans(buf, b1, b2, s as int, lo, hi);
    lemma_decorations_local(b2, w, h, s, style, colors.palette@, area, fg);
    lemma_same_trans(buf, b2, spec_decorations(b2, w, h, s, style, colors.palette@, area, fg), s as int, lo, hi);
}

pub proof fn lemma_draw_row_local(
    buf: Seq<u8>,
    w: u32,
    h: u32,
    s: u32,
    grid: GridMetrics,
    colors: RenderColors,
    bold_is_bright: bool,
    cursor_blink_visible: bool,
    row: int,
    cells: Seq<RawCell>,
    glyphs: Seq<Option<GlyphImage>>,
    n: int,
)
    requires
        w * 4 <= s,
        grid.cell_h >= 2,
        0 <= row <= u32::MAX,
        n <= cells.len(),
        n <= glyphs.len(),
        forall|j: int| 0 <= j < n ==> #[trigger] cell_fits(grid, row as usize, j as usize),
        forall|j: int| 0 <= j < n ==> glyph_in_rows(#[trigger] glyphs[j], row_top(grid, row) as u32, grid.cell_h),
    ensures
        same_outside_rows(
            buf,
            spec_draw_row(buf, w, h, s, grid, colors, bold_is_bright, cursor_blink_visible, row, cells, glyphs, n),
            s as int,
            row_top(grid, row),
            row_top(grid, row) + grid.cell_h,
        ),
    decreases n,
{
    let lo = row_top(grid, row);
    let hi = lo + grid.cell_h;
    if n <= 0 {
        lemma_same_refl(buf, s as int, lo, hi);
    } else {
        lemma_draw_row_local(buf, w, h, s, grid, colors, bold_is_bright, cursor_blink_visible, row, cells, glyphs, n - 1);
        let prev = spec_draw_row(buf, w, h, s, grid, colors, bold_is_bright, cursor_blink_visible, row, cells, glyphs, n - 1);
        let v = spec_cell_view(cells[n - 1]);
        assert(cell_fits(grid, row as usize, (n - 1) as usize));
        assert(glyph_in_rows(glyphs[n - 1], row_top(grid, row) as u32, grid.cell_h));
        lemma_draw_cell_local(
            prev,
            w,
            h,
            s,
            grid,
            colors,
            bold_is_bright,
            cursor_blink_visible,
            row as usize,
            (n - 1) as usize,
            v.0,
            v.1,
            v.2,
            glyphs[n - 1],
        );
        lemma_same_trans(
            buf,
            prev,
            spec_draw_row(buf, w, h, s, grid, colors, bold_is_bright, cursor_blink_visible, row, cells, glyphs, n),
            s as int,
            lo,
            hi,
        );
    }
}

/// Every glyph of the grid lies within the pixel rows of its cell.
pub open spec fn glyphs_in_rows(grid: GridMetrics, cells: Seq<Vec<RawCell>>, glyphs: Seq<Vec<Option<GlyphImage>>>) -> bool {
    forall|r: int, j: int|
        0 <= r < cells.len() && 0 <= j < cells[r]@.len() ==> glyph_in_rows(
            #[trigger] glyphs[r]@[j],
            row_top(grid, r) as u32,
            grid.cell_h,
        )
}

pub proof fn lemma_draw_rows_local(
    buf: Seq<u8>,
    w: u32,
    h: u32,
    s: u32,
    grid: GridMetrics,
    colors: RenderColors,
    bold_is_bright: bool,
    cursor_blink_visible: bool,
    cells: Seq<Vec<RawCell>>,
    glyphs: Seq<Vec<Option<GlyphImage>>>,
    row_dirty: Seq<bool>,
    dirty_only: bool,
    n: int,
)
    requires
        w * 4 <= s,
        grid.cell_h >= 2,
        n <= cells.len() <= 65536,
        cells_fit(grid, cells, glyphs, w, h),
        glyphs_in_rows(grid, cells, glyphs),
    ensures
        spec_draw_rows(buf, w, h, s, grid, colors, bold_is_bright, cursor_blink_visible, cells, glyphs, row_dirty, dirty_only, n).len()
            == buf.len(),
        forall|i: int|
            0 <= i < buf.len() && (forall|r: int|
                0 <= r < n && row_drawn(row_dirty, dirty_only, r) ==> !in_pixel_rows(
                    i,
                    s as int,
                    #[trigger] row_top(grid, r),
                    grid.cell_h as int,
                )) ==> #[trigger] spec_draw_rows(
                buf,
                w,
                h,
                s,
                grid,
                colors,
                bold_is_bright,
                cursor_blink_visible,
                cells,
                glyphs,
                row_dirty,
                dirty_only,
                n,
            )[i] == buf[i],
    decreases n,
{
    if n > 0 {
        lemma_draw_rows_local(buf, w, h, s, grid, colors, bold_is_bright, cursor_blink_visible, cells, glyphs, row_dirty, dirty_only, n - 1);
        let prev = spec_draw_rows(buf, w, h, s, grid, colors, bold_is_bright, cursor_blink_visible, cells, glyphs, row_dirty, dirty_only, n - 1);
        let out = spec_draw_rows(buf, w, h, s, grid, colors, bold_is_bright, cursor_blink_visible, cells, glyphs, row_dirty, dirty_only, n);
        let r = n - 1;
        if row_drawn(row_dirty, dirty_only, r) {
            assert forall|j: int| 0 <= j < cells[r]@.len() implies #[trigger] cell_fits(grid, r as usize, j as usize) by {
                assert(cell_ok(grid, r, j, cells[r]@[j], glyphs[r]@[j], w, h));
            }
            assert forall|j: int| 0 <= j < cells[r]@.len() implies glyph_in_rows(
                #[trigger] glyphs[r]@[j],
                row_top(grid, r) as u32,
                grid.cell_h,
            ) by {
                assert(glyph_in_rows(glyphs[r]@[j], row_top(grid, r) as u32, grid.cell_h));
            }
            assert(glyphs[r]@.len() == cells[r]@.len());
            lemma_draw_row_local(
                prev,
                w,
                h,
                s,
                grid,
                colors,
                bold_is_bright,
                cursor_blink_visible,
                r,
                cells[r]@,
                glyphs[r]@,
                cells[r]@.len() as int,
            );
        }
        assert forall|i: int|
            0 <= i < buf.len() && (forall|q: int|
                0 <= q < n && row_drawn(row_dirty, dirty_only, q) ==> !in_pixel_rows(
                    i,
                    s as int,
                    #[trigger] row_top(grid, q),
                    grid.cell_h as int,
                )) implies #[trigger] out[i] == buf[i] by {
            assert forall|q: int| 0 <= q < n - 1 && row_drawn(row_dirty, dirty_only, q) implies !in_pixel_rows(
                i,
                s as int,
                #[trigger] row_top(grid, q),
                grid.cell_h as int,
            ) by {}
            assert(prev[i] == buf[i]);
            if row_drawn(row_dirty, dirty_only, r) {
                assert(!in_pixel_rows(i, s as int, row_top(grid, r), grid.cell_h as int));
            }
        }
    }
}

/// A partial frame keeps the clean rows: when only some rows are dirty,
/// every byte of the retained buffer outside the pixel rows of the dirty
/// rows keeps its value, provided each glyph lies within the pixel rows
/// of its cell and cells are at least two pixels tall.
pub proof fn law_partial_frame_keeps_clean_rows(
    r0: Seq<u8>,
    buf_len: nat,
    w: u32,
    h: u32,
    s: u32,
    grid: GridMetrics,
    state: RenderState,
    glyphs: Seq<Vec<Option<GlyphImage>>>,
    colors: RenderColors,
    opts: RenderOptions,
    i: int,
)
    requires
        spec_redraw_kind(r0.len() as usize, buf_len as usize, state.dirty) == RedrawKind::Partial,
        w * 4 <= s,
        0 < s,
        grid.cell_h >= 2,
        state.wf(),
        state.row_dirty@.len() <= 65536,
        cells_fit(grid, state.cells@, glyphs, w, h),
        glyphs_in_rows(grid, state.cells@, glyphs),
        0 <= i < r0.len(),
        forall|r: int|
            0 <= r < state.row_dirty@.len() && state.row_dirty@[r] ==> !in_pixel_rows(
                i,
                s as int,
                #[trigger] row_top(grid, r),
                grid.cell_h as int,
            ),
    ensures
        spec_frame_retained(r0, buf_len, w, h, s, grid, state, glyphs, colors, opts)[i] == r0[i],
{
    let flags = state.row_dirty@;
    let d = spec_dirty_rows(flags, 65535);
    law_dirty_rows_sorted_bounded(flags, 65535);
    assert forall|j: int| 0 <= j < d.len() implies !in_pixel_rows(
        i,
        s as int,
        #[trigger] d[j] * grid.cell_h + grid.pad,
        grid.cell_h as int,
    ) by {
        let r = d[j] as int;
        assert(flags[r]);
        assert(row_top(grid, r) == d[j] * grid.cell_h + grid.pad);
    }
    law_clear_dirty_keeps_clean_rows(r0, w, s, grid, d, colors.background, opts.background_alpha, i);
    let cleared = spec_clear_dirty(r0, w, s, grid, d, d.len(), colors.background, opts.background_alpha);
    lemma_clear_dirty_len(r0, w, s, grid, d, d.len(), colors.background, opts.background_alpha);
    lemma_draw_rows_local(
        cleared,
        w,
        h,
        s,
        grid,
        colors,
        opts.bold_is_bright,
        opts.cursor_blink_visible,
        state.cells@,
        glyphs,
        flags,
        true,
        state.cells@.len() as int,
    );
    assert forall|r: int|
        0 <= r < state.cells@.len() && row_drawn(flags, true, r) implies !in_pixel_rows(
        i,
        s as int,
        #[trigger] row_top(grid, r),
        grid.cell_h as int,
    ) by {}
}

} // verus!
