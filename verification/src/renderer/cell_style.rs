//! Cell colours and decorations: inverse, bold-as-bright, faint, underline
//! variants, strikethrough and overline.

use vstd::prelude::*;
use super::{Bgra, Rect, Surface};
use super::primitives::{
    clamp_end, draw_rect, fill_rect_bytes, set_pixel, spec_set_pixel, surface_wf,
};
use crate::terminal::render::{
    has_bit, resolve_color, spec_resolve_color, CellStyle, CellStyleAttrs, RenderColors, STYLE_COLOR_PALETTE,
};

verus! {

/// `a - b`, or 0 when `b > a`.
pub open spec fn sat_sub_u32(a: u32, b: u32) -> u32 {
    if a >= b { (a - b) as u32 } else { 0 }
}

/// The buffer after `draw_rect` of the rectangle `(x, y, rw, rh)`.
pub open spec fn spec_fill(
    buf: Seq<u8>,
    w: u32,
    h: u32,
    s: u32,
    x: u32,
    y: u32,
    rw: u32,
    rh: u32,
    color: Bgra,
) -> Seq<u8> {
    fill_rect_bytes(buf, s as int, x as int, clamp_end(x, rw, w) as int, y as int, clamp_end(y, rh, h) as int, color)
}

/// The colours of a cell: foreground and background resolved against the
/// palette, swapped for inverse, the foreground moved to the bright half of
/// the palette for bold text in one of the first eight colours (when
/// `bold_is_bright`), and halved for faint text.
pub open spec fn spec_cell_colors(style: CellStyle, colors: RenderColors, bold_is_bright: bool) -> (Bgra, Bgra) {
    let palette = colors.palette@;
    let fg0 = spec_resolve_color(style.fg_tag, style.fg_palette, style.fg_rgb, palette, colors.foreground);
    let bg0 = spec_resolve_color(style.bg_tag, style.bg_palette, style.bg_rgb, palette, colors.background);
    let inverse = has_bit(style.attrs.0, 16);
    let fg1 = if inverse { bg0 } else { fg0 };
    let bg1 = if inverse { fg0 } else { bg0 };
    let fg2 = if bold_is_bright && has_bit(style.attrs.0, 1) && style.fg_tag == STYLE_COLOR_PALETTE
        && style.fg_palette < 8 {
        palette[style.fg_palette + 8]
    } else {
        fg1
    };
    let fg3 = if has_bit(style.attrs.0, 4) {
        ((fg2.0 / 2) as u8, (fg2.1 / 2) as u8, (fg2.2 / 2) as u8)
    } else {
        fg2
    };
    (fg3, bg1)
}

/// `style` with its bold bit cleared.
pub open spec fn without_bold(style: CellStyle) -> CellStyle {
    CellStyle { attrs: CellStyleAttrs(style.attrs.0 & 0xFE), ..style }
}

/// With bold-is-bright off, bold does not change a cell's colours; with it
/// on, bold text in one of the first eight palette colours (neither
/// inverse nor faint) takes the bright colour eight entries further; with
/// it off, such text keeps its own palette colour.
pub proof fn law_bold_is_bright(style: CellStyle, colors: RenderColors)
    ensures
        spec_cell_colors(style, colors, false) == spec_cell_colors(without_bold(style), colors, false),
        colors.palette@.len() == 256 && style.fg_tag == STYLE_COLOR_PALETTE && style.fg_palette < 8 && !has_bit(
            style.attrs.0,
            16,
        ) && !has_bit(style.attrs.0, 4) ==> {
            &&& spec_cell_colors(style, colors, false).0 == colors.palette@[style.fg_palette as int]
            &&& has_bit(style.attrs.0, 1) ==> spec_cell_colors(style, colors, true).0 == colors.palette@[style.fg_palette
                + 8]
        },
{
    let x = style.attrs.0;
    assert(((x & 0xFE) & 16 != 0) == (x & 16 != 0) && ((x & 0xFE) & 4 != 0) == (x & 4 != 0)) by (bit_vector);
}

/// Resolve the foreground and background colours of a cell.
pub fn resolve_cell_colors(style: &CellStyle, colors: &RenderColors, bold_is_bright: bool) -> (r: (Bgra, Bgra))
    ensures
        r == spec_cell_colors(*style, *colors, bold_is_bright),
{
    let mut fg_color = resolve_color(style.fg_tag, style.fg_palette, style.fg_rgb, colors, colors.foreground);
    let mut bg_color = resolve_color(style.bg_tag, style.bg_palette, style.bg_rgb, colors, colors.background);
    if style.attrs.inverse() {
        let t = fg_color;
        fg_color = bg_color;
        bg_color = t;
    }
    if bold_is_bright && style.attrs.bold() && style.fg_tag == STYLE_COLOR_PALETTE && style.fg_palette < 8 {
        fg_color = colors.palette[style.fg_palette as usize + 8];
    }
    if style.attrs.faint() {
        fg_color = (fg_color.0 >> 1, fg_color.1 >> 1, fg_color.2 >> 1);
    }
    proof {
        let fg2 = if bold_is_bright && has_bit(style.attrs.0, 1) && style.fg_tag == STYLE_COLOR_PALETTE
            && style.fg_palette < 8 {
            colors.palette@[style.fg_palette + 8]
        } else if has_bit(style.attrs.0, 16) {
            spec_resolve_color(style.bg_tag, style.bg_palette, style.bg_rgb, colors.palette@, colors.background)
        } else {
            spec_resolve_color(style.fg_tag, style.fg_palette, style.fg_rgb, colors.palette@, colors.foreground)
        };
        if has_bit(style.attrs.0, 4) {
            let (a, b, c) = fg2;
            assert((a >> 1) == a / 2 && (b >> 1) == b / 2 && (c >> 1) == c / 2) by (bit_vector);
        }
    }
    (fg_color, bg_color)
}

/// The row of the (lower) underline of a cell at `py` of height `cell_h`.
pub open spec fn underline_y(py: u32, cell_h: u32) -> u32 {
    (py + sat_sub_u32(cell_h, 2)) as u32
}

/// Whether column offset `x_off` of a curly (3), dotted (4) or dashed (5)
/// underline is drawn.
pub open spec fn pattern_on(variant: i32, x_off: int) -> bool {
    if variant == 3 {
        true
    } else if variant == 4 {
        x_off % 2 == 0
    } else {
        (x_off / 3) % 2 == 0
    }
}

/// Row offset of column `x_off` of a patterned underline: a curly one
/// alternates between two rows every two pixels.
pub open spec fn pattern_dy(variant: i32, x_off: int) -> int {
    if variant == 3 { (x_off / 2) % 2 } else { 0 }
}

/// `a + b` saturated at `u32::MAX`.
pub open spec fn sat_add_u32(a: u32, b: int) -> u32 {
    if a + b <= u32::MAX { (a + b) as u32 } else { u32::MAX }
}

/// The buffer after the first `n` columns of a patterned underline.
pub open spec fn spec_pattern(
    buf: Seq<u8>,
    w: u32,
    h: u32,
    s: u32,
    px: u32,
    uy: u32,
    variant: i32,
    color: Bgra,
    n: nat,
) -> Seq<u8>
    decreases n,
{
    if n == 0 {
        buf
    } else {
        let prev = spec_pattern(buf, w, h, s, px, uy, variant, color, (n - 1) as nat);
        let x_off = n - 1;
        if pattern_on(variant, x_off) {
            spec_set_pixel(prev, w, h, s, (px + x_off) as u32, sat_add_u32(uy, pattern_dy(variant, x_off)), color)
        } else {
            prev
        }
    }
}

/// The buffer after drawing underline `variant` (0 none, 1 single,
/// 2 double, 3 curly, 4 dotted, 5 dashed, anything else single) under the
/// cell at `(px, py)` of size `cell_w` x `cell_h`.
pub open spec fn spec_underline(
    buf: Seq<u8>,
    w: u32,
    h: u32,
    s: u32,
    px: u32,
    py: u32,
    cell_w: u32,
    cell_h: u32,
    variant: i32,
    color: Bgra,
) -> Seq<u8> {
    let uy = underline_y(py, cell_h);
    if variant == 0 {
        buf
    } else if variant == 2 && cell_h >= 3 {
        spec_fill(spec_fill(buf, w, h, s, px, (uy - 1) as u32, cell_w, 1, color), w, h, s, px, (uy + 1) as u32, cell_w, 1, color)
    } else if 3 <= variant <= 5 {
        spec_pattern(buf, w, h, s, px, uy, variant, color, cell_w as nat)
    } else {
        spec_fill(buf, w, h, s, px, uy, cell_w, 1, color)
    }
}

proof fn lemma_pixel_fits(px: u32, py: u32, w: u32, h: u32, s: u32, len: int)
    requires
        surface_wf(w, h, s, len),
        px < w,
        py < h,
    ensures
        py * s + px * 4 <= u32::MAX,
{
    assert(py * s + px * 4 <= u32::MAX) by (nonlinear_arith)
        requires
            px < w,
            py < h,
            w * 4 <= s,
            s * h <= u32::MAX,
    ;
}

/// Draw a patterned underline column by column.
fn draw_pattern(surface: &mut Surface<'_>, px: u32, uy: u32, cell_w: u32, variant: i32, color: Bgra)
    requires
        surface_wf(old(surface).width, old(surface).height, old(surface).stride, old(surface).buf@.len() as int),
        px + cell_w <= u32::MAX,
        3 <= variant <= 5,
    ensures
        final(final(surface).buf)@ == final(old(surface).buf)@,
        final(surface).width == old(surface).width,
        final(surface).height == old(surface).height,
        final(surface).stride == old(surface).stride,
        final(surface).buf@.len() == old(surface).buf@.len(),
        final(surface).buf@ == spec_pattern(
            old(surface).buf@,
            old(surface).width,
            old(surface).height,
            old(surface).stride,
            px,
            uy,
            variant,
            color,
            cell_w as nat,
        ),
{
    let ghost b0 = surface.buf@;
    let mut x_off: u32 = 0;
    while x_off < cell_w
        invariant
            final(surface.buf)@ == final(old(surface).buf)@,
            x_off <= cell_w,
            px + cell_w <= u32::MAX,
            3 <= variant <= 5,
            surface.width == old(surface).width,
            surface.height == old(surface).height,
            surface.stride == old(surface).stride,
            surface.buf@.len() == b0.len(),
            b0 == old(surface).buf@,
            surface_wf(surface.width, surface.height, surface.stride, b0.len() as int),
            surface.buf@ == spec_pattern(
                b0,
                surface.width,
                surface.height,
                surface.stride,
                px,
                uy,
                variant,
                color,
                x_off as nat,
            ),
        decreases cell_w - x_off,
    {
        let on = if variant == 3 {
            true
        } else if variant == 4 {
            x_off % 2 == 0
        } else {
            (x_off / 3) % 2 == 0
        };
        if on {
            let dy: u32 = if variant == 3 { (x_off / 2) % 2 } else { 0 };
            let wy = uy.saturating_add(dy);
            proof {
                if px + x_off < surface.width && wy < surface.height {
                    lemma_pixel_fits((px + x_off) as u32, wy, surface.width, surface.height, surface.stride, b0.len() as int);
                }
            }
            set_pixel(surface, px + x_off, wy, color);
        }
        x_off = x_off + 1;
    }
}

/// Draw underline `variant` under the cell at `(px, py)`.
pub fn draw_underline(
    surface: &mut Surface<'_>,
    px: u32,
    py: u32,
    cell_w: u32,
    cell_h: u32,
    variant: i32,
    color: Bgra,
)
    requires
        surface_wf(old(surface).width, old(surface).height, old(surface).stride, old(surface).buf@.len() as int),
        px + cell_w <= u32::MAX,
        py + sat_sub_u32(cell_h, 2) + 2 <= u32::MAX,
    ensures
        final(final(surface).buf)@ == final(old(surface).buf)@,
        final(surface).width == old(surface).width,
        final(surface).height == old(surface).height,
        final(surface).stride == old(surface).stride,
        final(surface).buf@.len() == old(surface).buf@.len(),
        final(surface).buf@ == spec_underline(
            old(surface).buf@,
            old(surface).width,
            old(surface).height,
            old(surface).stride,
            px,
            py,
            cell_w,
            cell_h,
            variant,
            color,
        ),
{
    if variant == 0 {
        return;
    }
    let ul_y = py + cell_h.saturating_sub(2);
    if variant == 2 && cell_h >= 3 {
        let rect_top = Rect { x: px, y: ul_y - 1, w: cell_w, h: 1 };
        draw_rect(surface, &rect_top, color);
        let rect_bot = Rect { x: px, y: ul_y + 1, w: cell_w, h: 1 };
        draw_rect(surface, &rect_bot, color);
    } else if 3 <= variant && variant <= 5 {
        draw_pattern(surface, px, ul_y, cell_w, variant, color);
    } else {
        let rect = Rect { x: px, y: ul_y, w: cell_w, h: 1 };
        draw_rect(surface, &rect, color);
    }
}

/// The buffer after the decorations of a cell covering `area`: its
/// underline (in the underline colour, or the text colour when none is set),
/// strikethrough through the middle row and overline on the top row.
pub open spec fn spec_decorations(
    buf: Seq<u8>,
    w: u32,
    h: u32,
    s: u32,
    style: CellStyle,
    palette: Seq<Bgra>,
    area: Rect,
    fg: Bgra,
) -> Seq<u8> {
    let b1 = if style.underline > 0 {
        spec_underline(
            buf,
            w,
            h,
            s,
            area.x,
            area.y,
            area.w,
            area.h,
            style.underline,
            spec_resolve_color(
                style.underline_color_tag,
                style.underline_color_palette,
                style.underline_color_rgb,
                palette,
                fg,
            ),
        )
    } else {
        buf
    };
    let b2 = if has_bit(style.attrs.0, 64) {
        spec_fill(b1, w, h, s, area.x, (area.y + area.h / 2) as u32, area.w, 1, fg)
    } else {
        b1
    };
    if has_bit(style.attrs.0, 128) {
        spec_fill(b2, w, h, s, area.x, area.y, area.w, 1, fg)
    } else {
        b2
    }
}

/// Draw a cell's underline, strikethrough and overline.
pub fn draw_cell_decorations(
    surface: &mut Surface<'_>,
    style: &CellStyle,
    colors: &RenderColors,
    area: &Rect,
    fg_color: Bgra,
)
    requires
        surface_wf(old(surface).width, old(surface).height, old(surface).stride, old(surface).buf@.len() as int),
        area.x + area.w <= u32::MAX,
        area.y + area.h + 1 <= u32::MAX,
        area.y + sat_sub_u32(area.h, 2) + 2 <= u32::MAX,
    ensures
        final(final(surface).buf)@ == final(old(surface).buf)@,
        final(surface).buf@.len() == old(surface).buf@.len(),
        final(surface).width == old(surface).width,
        final(surface).height == old(surface).height,
        final(surface).stride == old(surface).stride,
        final(surface).buf@ == spec_decorations(
            old(surface).buf@,
            old(surface).width,
            old(surface).height,
            old(surface).stride,
            *style,
            colors.palette@,
            *area,
            fg_color,
        ),
{
    if style.underline > 0 {
        let ul_color = resolve_color(
            style.underline_color_tag,
            style.underline_color_palette,
            style.underline_color_rgb,
            colors,
            fg_color,
        );
        draw_underline(surface, area.x, area.y, area.w, area.h, style.underline, ul_color);
    }
    if style.attrs.strikethrough() {
        let rect = Rect { x: area.x, y: area.y + area.h / 2, w: area.w, h: 1 };
        draw_rect(surface, &rect, fg_color);
    }
    if style.attrs.overline() {
        let rect = Rect { x: area.x, y: area.y, w: area.w, h: 1 };
        draw_rect(surface, &rect, fg_color);
    }
}

} // verus!
