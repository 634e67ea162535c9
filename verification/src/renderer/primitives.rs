//! Pixel primitives: blending, single pixels and rectangles.
//!
//! Pixels are 4 bytes, blue, green, red, alpha; row `y` of a surface starts
//! at byte `y * stride`.

use vstd::prelude::*;
use super::{Bgra, Rect, Surface};

verus! {

/// `(fg * alpha + bg * (255 - alpha)) / 255`, the blend of one channel.
pub open spec fn spec_blend(fg: u8, bg: u8, alpha: int) -> int {
    (fg * alpha + bg * (255 - alpha)) / 255
}

proof fn lemma_div255(val: u32)
    requires
        val <= 65025,
    ensures
        (((val + 1) * 257) as u32) >> 16 == val / 255,
        val / 255 <= 255,
{
    assert(val <= 65025 ==> (((val + 1) * 257) as u32) >> 16 == val / 255) by (bit_vector);
}

/// Blend a single channel: `(fg * alpha + bg * (255 - alpha)) / 255`.
/// Both inputs and the result are in 0..=255, so the intermediate `u16`
/// arithmetic never overflows and the final division always yields a value
/// that fits in `u8`.
pub fn blend_channel(fg: u8, bg: u8, alpha: u16) -> (r: u8)
    requires
        alpha <= 255,
    ensures
        r == spec_blend(fg, bg, alpha as int),
{
    let inv = 255 - alpha;
    assert(fg * alpha + bg * inv <= 65025) by (nonlinear_arith)
        requires
            fg <= 255,
            bg <= 255,
            alpha + inv == 255,
    ;
    let val: u16 = (fg as u16) * alpha + (bg as u16) * inv;
    proof {
        lemma_div255(val as u32);
    }
    // Exact division by 255: for val in 0..=65025, ((val+1)*257)>>16 == val/255.
    (((val as u32 + 1) * 257) >> 16) as u8
}

/// Byte `c` (0 = blue, 1 = green, 2 = red, 3 = alpha) of the opaque pixel
/// of colour `color` (given as red, green, blue).
pub open spec fn px_byte(color: Bgra, c: int) -> u8 {
    if c == 0 {
        color.2
    } else if c == 1 {
        color.1
    } else if c == 2 {
        color.0
    } else {
        0xFF
    }
}

/// The byte offset of pixel `(px, py)`.
pub open spec fn pixel_offset(stride: int, px: int, py: int) -> int {
    py * stride + px * 4
}

/// The buffer after `set_pixel`: the 4 bytes of the pixel, when the pixel is
/// on the surface and its bytes are inside the buffer.
pub open spec fn spec_set_pixel(buf: Seq<u8>, width: u32, height: u32, stride: u32, px: u32, py: u32, color: Bgra) -> Seq<u8> {
    let off = pixel_offset(stride as int, px as int, py as int);
    if px < width && py < height && off + 4 <= buf.len() {
        Seq::new(buf.len(), |i: int| if off <= i < off + 4 { px_byte(color, i - off) } else { buf[i] })
    } else {
        buf
    }
}

/// Set the pixel at `(px, py)` to `color` (opaque), when it lies on the
/// surface and inside the buffer.
pub fn set_pixel(surface: &mut Surface<'_>, px: u32, py: u32, color: Bgra)
    requires
        px < old(surface).width && py < old(surface).height ==> py * old(surface).stride + px * 4 <= u32::MAX,
    ensures
        final(final(surface).buf)@ == final(old(surface).buf)@,
        final(surface).width == old(surface).width,
        final(surface).height == old(surface).height,
        final(surface).stride == old(surface).stride,
        final(surface).buf@ == spec_set_pixel(
            old(surface).buf@,
            old(surface).width,
            old(surface).height,
            old(surface).stride,
            px,
            py,
            color,
        ),
{
    if px >= surface.width || py >= surface.height {
        return;
    }
    let offset = (py * surface.stride + px * 4) as usize;
    if offset < surface.buf.len() && 4 <= surface.buf.len() - offset {
        surface.buf[offset] = color.2;
        surface.buf[offset + 1] = color.1;
        surface.buf[offset + 2] = color.0;
        surface.buf[offset + 3] = 0xFF;
        assert(surface.buf@ =~= spec_set_pixel(
            old(surface).buf@,
            old(surface).width,
            old(surface).height,
            old(surface).stride,
            px,
            py,
            color,
        ));
    } else {
        assert(surface.buf@ =~= old(surface).buf@);
    }
}

/// A surface whose rows hold all their pixels and whose buffer holds all
/// its rows, with every byte offset of a pixel fitting in `u32`.
pub open spec fn surface_wf(width: u32, height: u32, stride: u32, len: int) -> bool {
    width * 4 <= stride && stride * height <= len && stride * height <= u32::MAX
}

/// `a + b` clamped to `lim`.
pub open spec fn clamp_end(a: u32, b: u32, lim: u32) -> u32 {
    if a + b < lim { (a + b) as u32 } else { lim }
}

/// Byte `i` belongs to a pixel of the rectangle with columns `x0 .. x1` and
/// rows `y0 .. y1`.
pub open spec fn in_rect_bytes(stride: int, x0: int, x1: int, y0: int, y1: int, i: int) -> bool {
    stride > 0 && 0 <= i && y0 <= i / stride < y1 && x0 * 4 <= i % stride < x1 * 4
}

/// The buffer with the pixels of the rectangle set to the opaque colour.
pub open spec fn fill_rect_bytes(buf: Seq<u8>, stride: int, x0: int, x1: int, y0: int, y1: int, color: Bgra) -> Seq<u8> {
    Seq::new(
        buf.len(),
        |i: int|
            if in_rect_bytes(stride, x0, x1, y0, y1, i) {
                px_byte(color, (i % stride) % 4)
            } else {
                buf[i]
            },
    )
}

/// Byte `c` of a pixel whose old byte is `old` after blending `color` over
/// it with opacity `alpha`; the alpha byte becomes opaque.
pub open spec fn blend_byte(color: Bgra, old: u8, alpha: int, c: int) -> u8 {
    if c == 3 {
        0xFF
    } else {
        spec_blend(px_byte(color, c), old, alpha) as u8
    }
}

/// The buffer with `color` blended over the pixels of the rectangle.
pub open spec fn blend_rect_bytes(
    buf: Seq<u8>,
    stride: int,
    x0: int,
    x1: int,
    y0: int,
    y1: int,
    color: Bgra,
    alpha: int,
) -> Seq<u8> {
    Seq::new(
        buf.len(),
        |i: int|
            if in_rect_bytes(stride, x0, x1, y0, y1, i) {
                blend_byte(color, buf[i], alpha, (i % stride) % 4)
            } else {
                buf[i]
            },
    )
}

pub(crate) proof fn lemma_byte_of(py: int, stride: int, px: int, c: int)
    requires
        stride > 0,
        0 <= c < 4,
        0 <= px,
        px * 4 + c < stride,
    ensures
        (py * stride + px * 4 + c) / stride == py,
        (py * stride + px * 4 + c) % stride == px * 4 + c,
        (px * 4 + c) % 4 == c,
{
    vstd::arithmetic::div_mod::lemma_fundamental_div_mod_converse(py * stride + px * 4 + c, stride, py, px * 4 + c);
    vstd::arithmetic::div_mod::lemma_fundamental_div_mod_converse(px * 4 + c, 4, px, c);
}

pub(crate) proof fn lemma_row_of(i: int, stride: int)
    requires
        stride > 0,
        i >= 0,
    ensures
        i == (i / stride) * stride + i % stride,
        0 <= i % stride < stride,
        i / stride >= 0,
{
    vstd::arithmetic::div_mod::lemma_fundamental_div_mod(i, stride);
    vstd::arithmetic::div_mod::lemma_mod_pos_bound(i, stride);
    vstd::arithmetic::div_mod::lemma_div_pos_is_pos(i, stride);
    vstd::arithmetic::mul::lemma_mul_is_commutative(stride, i / stride);
}

/// Write (or, when `alpha < 255`, blend) `color` over the pixels
/// `x0 .. x1` of the rows `y0 .. y1`.
fn paint_rect(buf: &mut [u8], stride: u32, x0: u32, x1: u32, y0: u32, y1: u32, color: Bgra, alpha: u8)
    requires
        x0 < x1,
        y0 < y1,
        x1 * 4 <= stride,
        stride * y1 <= old(buf)@.len(),
        stride * y1 <= u32::MAX,
    ensures
        final(buf)@ == if alpha == 255 {
            fill_rect_bytes(old(buf)@, stride as int, x0 as int, x1 as int, y0 as int, y1 as int, color)
        } else {
            blend_rect_bytes(old(buf)@, stride as int, x0 as int, x1 as int, y0 as int, y1 as int, color, alpha as int)
        },
{
    let ghost b0 = buf@;
    let ghost s = stride as int;
    let ghost target = if alpha == 255 {
        fill_rect_bytes(b0, s, x0 as int, x1 as int, y0 as int, y1 as int, color)
    } else {
        blend_rect_bytes(b0, s, x0 as int, x1 as int, y0 as int, y1 as int, color, alpha as int)
    };
    let n = buf.len();
    let mut py: u32 = y0;
    while py < y1
        invariant
            buf@.len() == b0.len(),
            n == b0.len(),
            b0 == old(buf)@,
            s == stride,
            x0 < x1,
            y0 <= py <= y1,
            x1 * 4 <= stride,
            stride * y1 <= n,
            stride * y1 <= u32::MAX,
            target == if alpha == 255 {
                fill_rect_bytes(b0, s, x0 as int, x1 as int, y0 as int, y1 as int, color)
            } else {
                blend_rect_bytes(b0, s, x0 as int, x1 as int, y0 as int, y1 as int, color, alpha as int)
            },
            forall|i: int|
                0 <= i < n ==> #[trigger] buf@[i] == if in_rect_bytes(s, x0 as int, x1 as int, y0 as int, py as int, i) {
                    target[i]
                } else {
                    b0[i]
                },
        decreases y1 - py,
    {
        assert(py * stride + stride <= stride * y1 && py * stride >= 0) by (nonlinear_arith)
            requires
                py < y1,
        ;
        let row_base: u32 = py * stride;
        let mut px: u32 = x0;
        while px < x1
            invariant
                buf@.len() == b0.len(),
                n == b0.len(),
                s == stride,
                x0 <= px <= x1,
                y0 <= py < y1,
                x1 * 4 <= stride,
                row_base == py * stride,
                row_base + stride <= n,
                row_base + stride <= u32::MAX,
                target == if alpha == 255 {
                    fill_rect_bytes(b0, s, x0 as int, x1 as int, y0 as int, y1 as int, color)
                } else {
                    blend_rect_bytes(b0, s, x0 as int, x1 as int, y0 as int, y1 as int, color, alpha as int)
                },
                forall|i: int|
                    0 <= i < n ==> #[trigger] buf@[i] == if in_rect_bytes(s, x0 as int, x1 as int, y0 as int, py as int, i)
                        || (row_base <= i < row_base + px * 4 && x0 * 4 <= i - row_base) {
                        target[i]
                    } else {
                        b0[i]
                    },
            decreases x1 - px,
        {
            let off = (row_base + px * 4) as usize;
            let ghost prev = buf@;
            if alpha == 255 {
                buf[off] = color.2;
                buf[off + 1] = color.1;
                buf[off + 2] = color.0;
                buf[off + 3] = 0xFF;
            } else {
                let a = alpha as u16;
                let vb = blend_channel(color.2, buf[off], a);
                buf[off] = vb;
                let vg = blend_channel(color.1, buf[off + 1], a);
                buf[off + 1] = vg;
                let vr = blend_channel(color.0, buf[off + 2], a);
                buf[off + 2] = vr;
                buf[off + 3] = 0xFF;
            }
            proof {
                assert forall|i: int| 0 <= i < n implies #[trigger] buf@[i] == if in_rect_bytes(
                    s,
                    x0 as int,
                    x1 as int,
                    y0 as int,
                    py as int,
                    i,
                ) || (row_base <= i < row_base + (px + 1) * 4 && x0 * 4 <= i - row_base) {
                    target[i]
                } else {
                    b0[i]
                } by {
                    lemma_row_of(i, s);
                    if off <= i < off + 4 {
                        lemma_byte_of(py as int, s, px as int, i - off);
                        assert(!in_rect_bytes(s, x0 as int, x1 as int, y0 as int, py as int, i));
                        assert(in_rect_bytes(s, x0 as int, x1 as int, y0 as int, y1 as int, i));
                        assert(prev[i] == b0[i]);
                    } else if row_base <= i < row_base + s {
                        lemma_byte_of(py as int, s, 0, 0);
                        vstd::arithmetic::div_mod::lemma_fundamental_div_mod_converse(i, s, py as int, i - row_base);
                    }
                }
            }
            px = px + 1;
        }
        proof {
            assert forall|i: int| 0 <= i < n implies #[trigger] buf@[i] == if in_rect_bytes(
                s,
                x0 as int,
                x1 as int,
                y0 as int,
                py + 1,
                i,
            ) {
                target[i]
            } else {
                b0[i]
            } by {
                lemma_row_of(i, s);
                if row_base <= i < row_base + s {
                    vstd::arithmetic::div_mod::lemma_fundamental_div_mod_converse(i, s, py as int, i - row_base);
                } else if i < row_base {
                    assert(i / s < py) by (nonlinear_arith)
                        requires
                            i < row_base,
                            row_base == py * s,
                            i == (i / s) * s + i % s,
                            0 <= i % s,
                            s > 0,
                    ;
                } else {
                    assert(i / s > py) by (nonlinear_arith)
                        requires
                            i >= row_base + s,
                            row_base == py * s,
                            i == (i / s) * s + i % s,
                            i % s < s,
                            s > 0,
                    ;
                }
            }
        }
        py = py + 1;
    }
    assert forall|i: int| 0 <= i < n implies #[trigger] buf@[i] == target[i] by {
        if !in_rect_bytes(s, x0 as int, x1 as int, y0 as int, y1 as int, i) {
        }
    }
    assert(buf@ =~= target);
}


/// Fill the rectangle (clamped to the surface) with the opaque colour.
pub fn draw_rect(surface: &mut Surface<'_>, rect: &Rect, color: Bgra)
    requires
        surface_wf(old(surface).width, old(surface).height, old(surface).stride, old(surface).buf@.len() as int),
        rect.x + rect.w <= u32::MAX,
        rect.y + rect.h <= u32::MAX,
    ensures
        final(final(surface).buf)@ == final(old(surface).buf)@,
        final(surface).width == old(surface).width,
        final(surface).height == old(surface).height,
        final(surface).stride == old(surface).stride,
        final(surface).buf@ == fill_rect_bytes(
            old(surface).buf@,
            old(surface).stride as int,
            rect.x as int,
            clamp_end(rect.x, rect.w, old(surface).width) as int,
            rect.y as int,
            clamp_end(rect.y, rect.h, old(surface).height) as int,
            color,
        ),
{
    // Clamp to surface bounds
    let x_end = if rect.x + rect.w < surface.width { rect.x + rect.w } else { surface.width };
    let y_end = if rect.y + rect.h < surface.height { rect.y + rect.h } else { surface.height };
    if rect.x >= x_end || rect.y >= y_end {
        assert(surface.buf@ =~= fill_rect_bytes(
            surface.buf@,
            surface.stride as int,
            rect.x as int,
            x_end as int,
            rect.y as int,
            y_end as int,
            color,
        ));
        return;
    }
    assert(surface.stride * y_end <= surface.stride * surface.height) by (nonlinear_arith)
        requires
            y_end <= surface.height,
    ;
    paint_rect(surface.buf, surface.stride, rect.x, x_end, rect.y, y_end, color, 255);
}

proof fn lemma_blend_opaque(fg: u8, bg: u8)
    ensures
        spec_blend(fg, bg, 255) == fg,
{
    assert(fg * 255 + bg * (255 - 255) == fg * 255);
    vstd::arithmetic::div_mod::lemma_div_by_multiple(fg as int, 255);
}

/// Blend `color` over the existing buffer contents at the given rectangle
/// (clamped to the surface), using the supplied alpha value (0 = fully
/// transparent, 255 = fully opaque); the alpha bytes become opaque.
pub fn draw_rect_alpha(surface: &mut Surface<'_>, rect: &Rect, color: Bgra, alpha: u8)
    requires
        surface_wf(old(surface).width, old(surface).height, old(surface).stride, old(surface).buf@.len() as int),
        rect.x + rect.w <= u32::MAX,
        rect.y + rect.h <= u32::MAX,
    ensures
        final(final(surface).buf)@ == final(old(surface).buf)@,
        final(surface).width == old(surface).width,
        final(surface).height == old(surface).height,
        final(surface).stride == old(surface).stride,
        final(surface).buf@ == blend_rect_bytes(
            old(surface).buf@,
            old(surface).stride as int,
            rect.x as int,
            clamp_end(rect.x, rect.w, old(surface).width) as int,
            rect.y as int,
            clamp_end(rect.y, rect.h, old(surface).height) as int,
            color,
            alpha as int,
        ),
{
    let ghost b0 = surface.buf@;
    let ghost x1 = clamp_end(rect.x, rect.w, surface.width) as int;
    let ghost y1 = clamp_end(rect.y, rect.h, surface.height) as int;
    // Fast path: fully opaque — skip blend math entirely.
    if alpha == 255 {
        draw_rect(surface, rect, color);
        assert forall|i: int| 0 <= i < b0.len() implies #[trigger] surface.buf@[i] == blend_rect_bytes(
            b0,
            surface.stride as int,
            rect.x as int,
            x1,
            rect.y as int,
            y1,
            color,
            255,
        )[i] by {
            let c = (i % (surface.stride as int)) % 4;
            lemma_blend_opaque(px_byte(color, c), b0[i]);
        }
        assert(surface.buf@ =~= blend_rect_bytes(b0, surface.stride as int, rect.x as int, x1, rect.y as int, y1, color, 255));
        return;
    }
    let x_end = if rect.x + rect.w < surface.width { rect.x + rect.w } else { surface.width };
    let y_end = if rect.y + rect.h < surface.height { rect.y + rect.h } else { surface.height };
    if rect.x >= x_end || rect.y >= y_end {
        assert(surface.buf@ =~= blend_rect_bytes(
            surface.buf@,
            surface.stride as int,
            rect.x as int,
            x_end as int,
            rect.y as int,
            y_end as int,
            color,
            alpha as int,
        ));
        return;
    }
    assert(surface.stride * y_end <= surface.stride * surface.height) by (nonlinear_arith)
        requires
            y_end <= surface.height,
    ;
    paint_rect(surface.buf, surface.stride, rect.x, x_end, rect.y, y_end, color, alpha);
}

/// Blending at full opacity gives the foreground; at zero opacity it gives
/// the background.
pub proof fn law_blend_extremes(fg: u8, bg: u8)
    ensures
        spec_blend(fg, bg, 255) == fg,
        spec_blend(fg, bg, 0) == bg,
{
    lemma_blend_opaque(fg, bg);
    assert(fg * 0 + bg * (255 - 0) == bg * 255);
    vstd::arithmetic::div_mod::lemma_div_by_multiple(bg as int, 255);
}

/// Blending a rectangle at full opacity is filling it.
pub proof fn law_opaque_blend_is_fill(buf: Seq<u8>, stride: int, x0: int, x1: int, y0: int, y1: int, color: Bgra)
    ensures
        blend_rect_bytes(buf, stride, x0, x1, y0, y1, color, 255) == fill_rect_bytes(buf, stride, x0, x1, y0, y1, color),
{
    assert forall|i: int| 0 <= i < buf.len() implies #[trigger] blend_rect_bytes(buf, stride, x0, x1, y0, y1, color, 255)[i]
        == fill_rect_bytes(buf, stride, x0, x1, y0, y1, color)[i] by {
        if in_rect_bytes(stride, x0, x1, y0, y1, i) {
            let c = (i % stride) % 4;
            lemma_blend_opaque(px_byte(color, c), buf[i]);
        }
    }
    assert(blend_rect_bytes(buf, stride, x0, x1, y0, y1, color, 255) =~= fill_rect_bytes(buf, stride, x0, x1, y0, y1, color));
}

/// Blending at zero opacity leaves an opaque buffer as it was.
pub proof fn law_transparent_blend_keeps_opaque(buf: Seq<u8>, stride: int, x0: int, x1: int, y0: int, y1: int, color: Bgra)
    requires
        forall|i: int| 0 <= i < buf.len() && (i % stride) % 4 == 3 ==> #[trigger] buf[i] == 0xFF,
    ensures
        blend_rect_bytes(buf, stride, x0, x1, y0, y1, color, 0) == buf,
{
    assert forall|i: int| 0 <= i < buf.len() implies #[trigger] blend_rect_bytes(buf, stride, x0, x1, y0, y1, color, 0)[i]
        == buf[i] by {
        if in_rect_bytes(stride, x0, x1, y0, y1, i) {
            let c = (i % stride) % 4;
            if c != 3 {
                law_blend_extremes(px_byte(color, c), buf[i]);
            }
        }
    }
    assert(blend_rect_bytes(buf, stride, x0, x1, y0, y1, color, 0) =~= buf);
}

} // verus!
