use horseshoe::font::GlyphImage;
use horseshoe::renderer::cell_style::{draw_underline, resolve_cell_colors};
use horseshoe::renderer::glyph::{draw_box_glyph, draw_glyph};
use horseshoe::renderer::overlay::draw_search_highlights;
use horseshoe::renderer::primitives::{blend_channel, draw_rect, draw_rect_alpha, set_pixel};
use horseshoe::renderer::{copy_retained_to_shm, GridMetrics, Rect, RenderTarget, SearchHighlight, Surface};
use horseshoe::terminal::render::{default_cell_style, CellStyleAttrs, RenderColors, STYLE_COLOR_PALETTE};

fn test_surface(w: u32, h: u32) -> (Vec<u8>, u32) {
    let stride = w * 4;
    let buf = vec![0u8; (stride * h) as usize];
    (buf, stride)
}


#[test]
fn test_set_pixel() {
    let (mut buf, stride) = test_surface(10, 10);
    let mut surface = Surface {
        buf: &mut buf,
        width: 10,
        height: 10,
        stride,
    };
    set_pixel(&mut surface, 5, 5, (255, 128, 64));
    let offset = 5 * 40 + 5 * 4;
    assert_eq!(*surface.buf.get(offset).expect("B byte"), 64); // B
    assert_eq!(*surface.buf.get(offset + 1).expect("G byte"), 128); // G
    assert_eq!(*surface.buf.get(offset + 2).expect("R byte"), 255); // R
    assert_eq!(*surface.buf.get(offset + 3).expect("A byte"), 0xFF); // A
}


#[test]
fn test_draw_rect() {
    let (mut buf, stride) = test_surface(20, 20);
    let mut surface = Surface {
        buf: &mut buf,
        width: 20,
        height: 20,
        stride,
    };
    let rect = Rect {
        x: 2,
        y: 2,
        w: 3,
        h: 3,
    };
    draw_rect(&mut surface, &rect, (255, 0, 0));
    // Check a pixel inside the rect
    let offset = (2 * stride + 2 * 4) as usize;
    assert_eq!(*surface.buf.get(offset + 2).expect("R byte"), 255); // R component
}


#[test]
fn test_draw_rect_alpha() {
    let (mut buf, stride) = test_surface(10, 10);
    // Fill with white
    for chunk in buf.chunks_exact_mut(4) {
        if let [b_ch, g_ch, r_ch, a_ch] = chunk {
            *b_ch = 255;
            *g_ch = 255;
            *r_ch = 255;
            *a_ch = 255;
        }
    }
    let mut surface = Surface {
        buf: &mut buf,
        width: 10,
        height: 10,
        stride,
    };
    let rect = Rect {
        x: 0,
        y: 0,
        w: 1,
        h: 1,
    };
    draw_rect_alpha(&mut surface, &rect, (0, 0, 0), 128);
    // Should be approximately half brightness
    assert!(*surface.buf.first().expect("first byte") < 200); // blended towards black
}


#[test]
fn test_set_pixel_out_of_bounds() {
    let (mut buf, stride) = test_surface(10, 10);
    let mut surface = Surface {
        buf: &mut buf,
        width: 10,
        height: 10,
        stride,
    };
    // These should not panic
    set_pixel(&mut surface, 100, 100, (255, 255, 255));
    set_pixel(&mut surface, 0, 100, (255, 255, 255));
}


#[test]
fn test_blend_channel_full_fg() {
    // alpha=255 → fg completely replaces bg
    assert_eq!(blend_channel(200, 50, 255), 200);
}


#[test]
fn test_blend_channel_zero_alpha() {
    // alpha=0 → bg unchanged
    assert_eq!(blend_channel(200, 50, 0), 50);
}


#[test]
fn test_blend_channel_half_alpha() {
    // alpha=128 → roughly midpoint
    let result = blend_channel(255, 0, 128);
    assert!(result > 100 && result < 160, "expected ~128, got {result}");
}


#[test]
fn test_blend_channel_boundary_values() {
    assert_eq!(blend_channel(0, 0, 0), 0);
    assert_eq!(blend_channel(255, 255, 255), 255);
    assert_eq!(blend_channel(0, 255, 0), 255);
    assert_eq!(blend_channel(255, 0, 255), 255);
}


#[test]
fn test_blend_channel_symmetry() {
    // blend(fg=100, bg=200, alpha=128) should be close to midpoint
    let r1 = blend_channel(100, 200, 128);
    let r2 = blend_channel(200, 100, 128);
    // These should sum to approximately 300 (but not exactly due to rounding)
    assert!((i32::from(r1) + i32::from(r2) - 300).abs() < 3);
}


#[test]
fn test_set_pixel_first() {
    let (mut buf, _stride) = test_surface(10, 10);
    let mut surface = Surface {
        buf: &mut buf,
        width: 10,
        height: 10,
        stride: 40,
    };
    set_pixel(&mut surface, 0, 0, (100, 200, 50));
    assert_eq!(*surface.buf.first().expect("B byte"), 50); // B
    assert_eq!(*surface.buf.get(1).expect("G byte"), 200); // G
    assert_eq!(*surface.buf.get(2).expect("R byte"), 100); // R
    assert_eq!(*surface.buf.get(3).expect("A byte"), 0xFF);
}


#[test]
fn test_set_pixel_last() {
    let (mut buf, _stride) = test_surface(10, 10);
    let mut surface = Surface {
        buf: &mut buf,
        width: 10,
        height: 10,
        stride: 40,
    };
    set_pixel(&mut surface, 9, 9, (10, 20, 30));
    let offset = (9 * 40 + 9 * 4) as usize;
    let pixel = surface.buf.get(offset..offset + 4).expect("pixel slice");
    assert_eq!(*pixel.first().expect("B byte"), 30);
    assert_eq!(*pixel.get(1).expect("G byte"), 20);
    assert_eq!(*pixel.get(2).expect("R byte"), 10);
    assert_eq!(*pixel.get(3).expect("A byte"), 0xFF);
}


#[test]
fn test_draw_rect_zero_size() {
    let (mut buf, _stride) = test_surface(10, 10);
    let original = buf.clone();
    let mut surface = Surface {
        buf: &mut buf,
        width: 10,
        height: 10,
        stride: 40,
    };
    let rect = Rect {
        x: 5,
        y: 5,
        w: 0,
        h: 0,
    };
    draw_rect(&mut surface, &rect, (255, 255, 255));
    assert_eq!(surface.buf, &original[..]);
}


#[test]
fn test_draw_rect_full_surface() {
    let (mut buf, _stride) = test_surface(4, 4);
    let mut surface = Surface {
        buf: &mut buf,
        width: 4,
        height: 4,
        stride: 16,
    };
    let rect = Rect {
        x: 0,
        y: 0,
        w: 4,
        h: 4,
    };
    draw_rect(&mut surface, &rect, (255, 0, 0));
    // Every pixel should be red
    for chunk in surface.buf.chunks_exact(4) {
        assert_eq!(chunk, &[0, 0, 255, 0xFF]);
    }
}


#[test]
fn test_draw_rect_clipping() {
    let (mut buf, _stride) = test_surface(10, 10);
    let mut surface = Surface {
        buf: &mut buf,
        width: 10,
        height: 10,
        stride: 40,
    };
    // Rect extends past the surface — should not panic
    let rect = Rect {
        x: 8,
        y: 8,
        w: 10,
        h: 10,
    };
    draw_rect(&mut surface, &rect, (128, 128, 128));
    // Pixel at (9,9) should be set
    let offset = (9 * 40 + 9 * 4) as usize;
    assert_eq!(*surface.buf.get(offset + 2).expect("R byte"), 128);
}


#[test]
fn test_draw_rect_alpha_transparent() {
    let (mut buf, _stride) = test_surface(4, 4);
    for chunk in buf.chunks_exact_mut(4) {
        chunk.copy_from_slice(&[100, 100, 100, 255]);
    }
    let original = buf.clone();
    let mut surface = Surface {
        buf: &mut buf,
        width: 4,
        height: 4,
        stride: 16,
    };
    let rect = Rect {
        x: 0,
        y: 0,
        w: 4,
        h: 4,
    };
    draw_rect_alpha(&mut surface, &rect, (255, 0, 0), 0);
    // Alpha=0 means no blending, background unchanged
    assert_eq!(surface.buf, &original[..]);
}


#[test]
fn test_draw_rect_alpha_opaque() {
    let (mut buf, _stride) = test_surface(4, 4);
    for chunk in buf.chunks_exact_mut(4) {
        chunk.copy_from_slice(&[100, 100, 100, 255]);
    }
    let mut surface = Surface {
        buf: &mut buf,
        width: 4,
        height: 4,
        stride: 16,
    };
    let rect = Rect {
        x: 0,
        y: 0,
        w: 1,
        h: 1,
    };
    draw_rect_alpha(&mut surface, &rect, (0, 255, 0), 255);
    // Alpha=255 → full replacement
    assert_eq!(*surface.buf.first().expect("B byte"), 0); // B=0 (from color green)
    assert_eq!(*surface.buf.get(1).expect("G byte"), 255); // G=255
    assert_eq!(*surface.buf.get(2).expect("R byte"), 0); // R=0
}


#[test]
fn test_draw_underline_single() {
    let (mut buf, stride) = test_surface(8, 16);
    let mut surface = Surface {
        buf: &mut buf,
        width: 8,
        height: 16,
        stride,
    };
    draw_underline(&mut surface, 0, 0, 8, 16, 1, (255, 255, 255));
    // Underline at y = cell_h - 2 = 14
    let ul_y = 14;
    let mut count = 0;
    for col_px in 0..8 {
        let off = (ul_y * stride + col_px * 4) as usize;
        if *surface.buf.get(off + 2).expect("R byte") == 255 {
            count += 1;
        }
    }
    assert_eq!(count, 8, "single underline should span full cell width");
}


#[test]
fn test_draw_underline_double() {
    let (mut buf, stride) = test_surface(8, 16);
    let mut surface = Surface {
        buf: &mut buf,
        width: 8,
        height: 16,
        stride,
    };
    draw_underline(&mut surface, 0, 0, 8, 16, 2, (255, 255, 255));
    // Should have pixels at two distinct rows
    let mut filled_rows = 0;
    for row_y in 10..16 {
        let off = (row_y * stride) as usize;
        if *surface.buf.get(off + 2).expect("R byte") == 255 {
            filled_rows += 1;
        }
    }
    assert!(
        filled_rows >= 2,
        "double underline should have >=2 rows, got {filled_rows}"
    );
}


#[test]
fn test_draw_underline_curly() {
    let (mut buf, stride) = test_surface(8, 16);
    let mut surface = Surface {
        buf: &mut buf,
        width: 8,
        height: 16,
        stride,
    };
    draw_underline(&mut surface, 0, 0, 8, 16, 3, (255, 255, 255));
    // Curly: should have some pixels set
    let filled: usize = surface
        .buf
        .chunks_exact(4)
        .filter(|c| *c.get(2).expect("R byte") == 255)
        .count();
    assert!(
        filled >= 4,
        "curly underline should have some pixels, got {filled}"
    );
}


#[test]
fn test_draw_underline_dotted() {
    let (mut buf, stride) = test_surface(8, 16);
    let mut surface = Surface {
        buf: &mut buf,
        width: 8,
        height: 16,
        stride,
    };
    draw_underline(&mut surface, 0, 0, 8, 16, 4, (255, 255, 255));
    let filled: usize = surface
        .buf
        .chunks_exact(4)
        .filter(|c| *c.get(2).expect("R byte") == 255)
        .count();
    // Dotted: every other pixel → 4 pixels for width=8
    assert_eq!(
        filled, 4,
        "dotted underline: expected 4 pixels, got {filled}"
    );
}


#[test]
fn test_draw_underline_dashed() {
    let (mut buf, stride) = test_surface(12, 16);
    let mut surface = Surface {
        buf: &mut buf,
        width: 12,
        height: 16,
        stride,
    };
    draw_underline(&mut surface, 0, 0, 12, 16, 5, (255, 255, 255));
    let filled: usize = surface
        .buf
        .chunks_exact(4)
        .filter(|c| *c.get(2).expect("R byte") == 255)
        .count();
    // Dashed: 3-on 3-off pattern → ~50%
    assert!(
        filled >= 4,
        "dashed underline should have pixels, got {filled}"
    );
    assert!(
        filled < 12,
        "dashed underline should have gaps, got {filled}"
    );
}


#[test]
fn test_draw_box_glyph_basic() {
    let (mut buf, stride) = test_surface(4, 4);
    let mut surface = Surface {
        buf: &mut buf,
        width: 4,
        height: 4,
        stride,
    };
    let alpha_buf = vec![255u8; 16]; // 4x4 fully opaque
    let rect = Rect {
        x: 0,
        y: 0,
        w: 4,
        h: 4,
    };
    draw_box_glyph(&mut surface, &rect, &alpha_buf, (100, 200, 50));
    // Every pixel should be the fg color
    for chunk in surface.buf.chunks_exact(4) {
        assert_eq!(*chunk.first().expect("B byte"), 50); // B
        assert_eq!(*chunk.get(1).expect("G byte"), 200); // G
        assert_eq!(*chunk.get(2).expect("R byte"), 100); // R
        assert_eq!(*chunk.get(3).expect("A byte"), 0xFF);
    }
}


#[test]
fn test_draw_box_glyph_transparent() {
    let (mut buf, stride) = test_surface(4, 4);
    let original = buf.clone();
    let mut surface = Surface {
        buf: &mut buf,
        width: 4,
        height: 4,
        stride,
    };
    let alpha_buf = vec![0u8; 16]; // all transparent
    let rect = Rect {
        x: 0,
        y: 0,
        w: 4,
        h: 4,
    };
    draw_box_glyph(&mut surface, &rect, &alpha_buf, (100, 200, 50));
    assert_eq!(surface.buf, &original[..]);
}


#[test]
fn test_draw_box_glyph_partial_alpha() {
    let (mut buf, _stride) = test_surface(2, 2);
    // Fill with white background
    for chunk in buf.chunks_exact_mut(4) {
        chunk.copy_from_slice(&[255, 255, 255, 255]);
    }
    let mut surface = Surface {
        buf: &mut buf,
        width: 2,
        height: 2,
        stride: 8,
    };
    let alpha_buf = vec![128u8; 4]; // half-transparent
    let rect = Rect {
        x: 0,
        y: 0,
        w: 2,
        h: 2,
    };
    draw_box_glyph(&mut surface, &rect, &alpha_buf, (0, 0, 0));
    // Should be blended toward black
    let red = *surface.buf.get(2).expect("R byte");
    assert!(red < 200 && red > 50, "expected blended value, got {red}");
}


#[test]
fn test_draw_box_glyph_clipping() {
    let (mut buf, _stride) = test_surface(4, 4);
    let mut surface = Surface {
        buf: &mut buf,
        width: 4,
        height: 4,
        stride: 16,
    };
    let alpha_buf = vec![255u8; 16];
    // Rect starts at (3,3) with 4x4 — extends past boundary
    let rect = Rect {
        x: 3,
        y: 3,
        w: 4,
        h: 4,
    };
    // Should not panic
    draw_box_glyph(&mut surface, &rect, &alpha_buf, (255, 0, 0));
    // Pixel at (3,3) should be set
    let offset = (3 * 16 + 3 * 4) as usize;
    assert_eq!(*surface.buf.get(offset + 2).expect("R byte"), 255);
}


#[test]
fn test_draw_glyph_basic() {
    let (mut buf, stride) = test_surface(10, 20);
    let mut surface = Surface {
        buf: &mut buf,
        width: 10,
        height: 20,
        stride,
    };
    let glyph = GlyphImage {
        width: 2,
        height: 2,
        left: 0,
        top: 1,
        alpha: vec![255, 255, 255, 255],
    };
    draw_glyph(&mut surface, 0, 0, 20, &glyph, (255, 0, 0));
    // Some pixels should be drawn (exact position depends on baseline calc)
    let filled: usize = surface
        .buf
        .chunks_exact(4)
        .filter(|c| *c.get(2).expect("R byte") == 255)
        .count();
    assert!(filled > 0, "glyph should draw at least some pixels");
}


#[test]
fn test_draw_glyph_out_of_bounds() {
    let (mut buf, stride) = test_surface(4, 4);
    let mut surface = Surface {
        buf: &mut buf,
        width: 4,
        height: 4,
        stride,
    };
    let glyph = GlyphImage {
        width: 2,
        height: 2,
        left: -10, // way off-screen
        top: 1,
        alpha: vec![255, 255, 255, 255],
    };
    // Should not panic
    draw_glyph(&mut surface, 0, 0, 4, &glyph, (255, 0, 0));
}


#[test]
fn test_search_highlight_no_u16_overflow() {
    let (mut buf, stride) = test_surface(100, 100);
    let mut surface = Surface {
        buf: &mut buf,
        width: 100,
        height: 100,
        stride,
    };
    let grid = GridMetrics {
        cell_w: 1,
        cell_h: 1,
        pad: 0,
    };
    let hl = SearchHighlight {
        row: 0,
        start_col: 10,
        end_col: u16::MAX,
        is_current: false,
    };
    draw_search_highlights(&mut surface, &grid, &[hl]);
}


#[test]
fn test_search_highlight_visible() {
    let (mut buf, stride) = test_surface(200, 50);
    let mut surface = Surface {
        buf: &mut buf,
        width: 200,
        height: 50,
        stride,
    };
    let grid = GridMetrics {
        cell_w: 8,
        cell_h: 16,
        pad: 0,
    };
    let hl = SearchHighlight {
        row: 0,
        start_col: 0,
        end_col: 3,
        is_current: true,
    };
    draw_search_highlights(&mut surface, &grid, &[hl]);
    let mut nonzero = 0;
    for y in 0..16u32 {
        for x in 0..32u32 {
            let off = (y * stride + x * 4) as usize;
            if buf.get(off + 1).copied().unwrap_or(0) != 0 {
                nonzero += 1;
            }
        }
    }
    assert!(nonzero > 0, "search highlight should paint visible pixels");
}


#[test]
fn test_set_pixel_out_of_bounds_noop() {
    let (mut buf, stride) = test_surface(10, 10);
    let original = buf.clone();
    let mut surface = Surface {
        buf: &mut buf,
        width: 10,
        height: 10,
        stride,
    };
    set_pixel(&mut surface, 10, 5, (255, 0, 0));
    set_pixel(&mut surface, 5, 10, (255, 0, 0));
    set_pixel(&mut surface, u32::MAX, u32::MAX, (255, 0, 0));
    assert_eq!(
        &*surface.buf, &original,
        "out-of-bounds set_pixel should not modify buffer"
    );
}


#[test]
fn test_draw_rect_clips_to_surface() {
    let (mut buf, stride) = test_surface(20, 20);
    let mut surface = Surface {
        buf: &mut buf,
        width: 20,
        height: 20,
        stride,
    };
    let rect = Rect {
        x: 15,
        y: 15,
        w: 100,
        h: 100,
    };
    draw_rect(&mut surface, &rect, (255, 0, 0));
}


#[test]
fn test_draw_rect_alpha_clips_to_surface() {
    let (mut buf, stride) = test_surface(20, 20);
    let mut surface = Surface {
        buf: &mut buf,
        width: 20,
        height: 20,
        stride,
    };
    let rect = Rect {
        x: 15,
        y: 15,
        w: 100,
        h: 100,
    };
    draw_rect_alpha(&mut surface, &rect, (0, 255, 0), 128);
}


#[test]
fn test_blend_channel_extremes() {
    assert_eq!(blend_channel(255, 0, 255), 255, "full alpha: src dominates");
    assert_eq!(blend_channel(0, 255, 0), 255, "zero alpha: dst unchanged");
    assert_eq!(blend_channel(128, 128, 128), 128, "equal blend: mid");
}


#[test]
fn test_draw_rect_clamps_to_surface() {
    let (mut buf, stride) = test_surface(10, 10);
    let mut surface = Surface {
        buf: &mut buf,
        width: 10,
        height: 10,
        stride,
    };
    let rect = Rect {
        x: 5,
        y: 0,
        w: 100,
        h: 1,
    };
    draw_rect(&mut surface, &rect, (255, 0, 0));
    for x in 0..5u32 {
        let offset = (x * 4) as usize;
        let pixel = surface
            .buf
            .get(offset..offset + 4)
            .expect("pixel in bounds");
        assert_eq!(pixel, &[0, 0, 0, 0], "column {x} should be untouched");
    }
    for x in 5..10u32 {
        let offset = (x * 4) as usize;
        let pixel = surface
            .buf
            .get(offset..offset + 4)
            .expect("pixel in bounds");
        assert_eq!(pixel, &[0, 0, 255, 0xFF], "column {x} should be filled red");
    }
}


#[test]
fn test_blend_channel_all_boundary_pairs() {
    assert_eq!(blend_channel(200, 50, 0), 50, "alpha=0: bg passthrough");
    assert_eq!(
        blend_channel(0, 100, 0),
        100,
        "alpha=0: bg passthrough (fg=0)"
    );
    assert_eq!(
        blend_channel(200, 50, 255),
        200,
        "alpha=255: fg passthrough"
    );
    assert_eq!(
        blend_channel(0, 100, 255),
        0,
        "alpha=255: fg passthrough (fg=0)"
    );
    let low_alpha = blend_channel(255, 0, 1);
    assert_eq!(low_alpha, 1, "alpha=1: nearly background");
    let high_alpha = blend_channel(255, 0, 254);
    assert_eq!(high_alpha, 254, "alpha=254: nearly foreground");
}


#[test]
fn test_blend_channel_exhaustive_equivalence() {
    for val in 0u16..=65025 {
        let fast = (((u32::from(val) + 1) * 257) >> 16) as u8;
        let slow = (val / 255).min(255) as u8;
        assert_eq!(fast, slow, "mismatch at val={val}");
    }
}


#[test]
fn test_blend_channel_all_alpha_boundary() {
    for a in 0u16..=255 {
        let a_u8 = u8::try_from(a).expect("a ≤ 255");
        let inv_u8 = u8::try_from(255 - a).expect("255-a ≤ 255");
        assert_eq!(
            blend_channel(255, 0, a),
            a_u8,
            "blend(255,0,{a}) should be {a}"
        );
        assert_eq!(
            blend_channel(0, 255, a),
            inv_u8,
            "blend(0,255,{a}) should be {}",
            255 - a
        );
    }
}


#[test]
fn test_blend_channel_identity() {
    for fg in (0u8..=255).step_by(17) {
        for bg in (0u8..=255).step_by(17) {
            assert_eq!(blend_channel(fg, bg, 255), fg, "alpha=255: fg={fg} bg={bg}");
            assert_eq!(blend_channel(fg, bg, 0), bg, "alpha=0: fg={fg} bg={bg}");
        }
    }
}


#[test]
fn test_draw_rect_alpha_matches_manual_blend() {
    let (mut buf, _stride) = test_surface(4, 4);
    for chunk in buf.chunks_exact_mut(4) {
        chunk.copy_from_slice(&[100, 150, 200, 255]);
    }
    let expected: Vec<u8> = buf
        .chunks_exact(4)
        .flat_map(|c| {
            if let [b_val, g_val, r_val, ..] = *c {
                let b_ch = blend_channel(50, b_val, 128);
                let g_ch = blend_channel(60, g_val, 128);
                let r_ch = blend_channel(70, r_val, 128);
                [b_ch, g_ch, r_ch, 0xFF]
            } else {
                [0, 0, 0, 0]
            }
        })
        .collect();
    let mut surface = Surface {
        buf: &mut buf,
        width: 4,
        height: 4,
        stride: 16,
    };
    let rect = Rect {
        x: 0,
        y: 0,
        w: 4,
        h: 4,
    };
    draw_rect_alpha(&mut surface, &rect, (70, 60, 50), 128);
    assert_eq!(
        surface.buf,
        &expected[..],
        "inlined blend should match per-channel blend"
    );
}


#[test]
fn test_draw_rect_zero_dimensions_noop() {
    let (mut buf, _stride) = test_surface(10, 10);
    let original = buf.clone();
    let mut surface = Surface {
        buf: &mut buf,
        width: 10,
        height: 10,
        stride: 40,
    };
    draw_rect(
        &mut surface,
        &Rect {
            x: 5,
            y: 5,
            w: 0,
            h: 3,
        },
        (255, 0, 0),
    );
    assert_eq!(surface.buf, &original[..], "w=0 should be noop");
    draw_rect(
        &mut surface,
        &Rect {
            x: 5,
            y: 5,
            w: 3,
            h: 0,
        },
        (255, 0, 0),
    );
    assert_eq!(surface.buf, &original[..], "h=0 should be noop");
}


#[test]
fn test_draw_rect_alpha_full_opacity_matches_draw_rect() {
    let (mut buf_alpha, _) = test_surface(4, 4);
    let (mut buf_opaque, _) = test_surface(4, 4);
    for chunk in buf_alpha.chunks_exact_mut(4) {
        chunk.copy_from_slice(&[50, 100, 150, 255]);
    }
    buf_opaque.copy_from_slice(&buf_alpha);
    let color = (200, 100, 50);
    let rect = Rect {
        x: 0,
        y: 0,
        w: 4,
        h: 4,
    };
    {
        let mut s = Surface {
            buf: &mut buf_alpha,
            width: 4,
            height: 4,
            stride: 16,
        };
        draw_rect_alpha(&mut s, &rect, color, 255);
    }
    {
        let mut s = Surface {
            buf: &mut buf_opaque,
            width: 4,
            height: 4,
            stride: 16,
        };
        draw_rect(&mut s, &rect, color);
    }
    assert_eq!(buf_alpha, buf_opaque, "alpha=255 should match draw_rect");
}


#[test]
fn test_draw_rect_alpha_zero_opacity_noop() {
    let (mut buf, _) = test_surface(4, 4);
    for chunk in buf.chunks_exact_mut(4) {
        chunk.copy_from_slice(&[50, 100, 150, 255]);
    }
    let original = buf.clone();
    let mut surface = Surface {
        buf: &mut buf,
        width: 4,
        height: 4,
        stride: 16,
    };
    draw_rect_alpha(
        &mut surface,
        &Rect {
            x: 0,
            y: 0,
            w: 4,
            h: 4,
        },
        (255, 0, 0),
        0,
    );
    assert_eq!(
        surface.buf,
        &original[..],
        "alpha=0 should leave buffer unchanged"
    );
}


#[test]
fn test_draw_glyph_full_alpha_exact_colors() {
    let (mut buf, stride) = test_surface(10, 10);
    for chunk in buf.chunks_exact_mut(4) {
        chunk.copy_from_slice(&[255, 255, 255, 255]);
    }
    let mut surface = Surface {
        buf: &mut buf,
        width: 10,
        height: 10,
        stride,
    };
    let glyph = GlyphImage {
        alpha: vec![255; 4],
        width: 2,
        height: 2,
        left: 0,
        top: 2,
    };
    let fg = (200, 100, 50);
    draw_glyph(&mut surface, 0, 0, 10, &glyph, fg);
    let py = 6u32;
    for dy in 0..2u32 {
        for dx in 0..2u32 {
            let off = ((py + dy) * stride + dx * 4) as usize;
            assert_eq!(*surface.buf.get(off).expect("B"), 50, "B at ({dx},{dy})");
            assert_eq!(
                *surface.buf.get(off + 1).expect("G"),
                100,
                "G at ({dx},{dy})"
            );
            assert_eq!(
                *surface.buf.get(off + 2).expect("R"),
                200,
                "R at ({dx},{dy})"
            );
            assert_eq!(
                *surface.buf.get(off + 3).expect("A"),
                0xFF,
                "A at ({dx},{dy})"
            );
        }
    }
}


#[test]
fn test_draw_glyph_zero_alpha_preserves_bg() {
    let (mut buf, stride) = test_surface(10, 10);
    for chunk in buf.chunks_exact_mut(4) {
        chunk.copy_from_slice(&[50, 100, 150, 255]);
    }
    let original = buf.clone();
    let mut surface = Surface {
        buf: &mut buf,
        width: 10,
        height: 10,
        stride,
    };
    let glyph = GlyphImage {
        alpha: vec![0; 4],
        width: 2,
        height: 2,
        left: 0,
        top: 2,
    };
    draw_glyph(&mut surface, 0, 0, 10, &glyph, (255, 0, 0));
    assert_eq!(
        surface.buf,
        &original[..],
        "zero-alpha glyph should not modify buffer"
    );
}


#[test]
fn test_draw_glyph_partial_alpha_blend_value() {
    let (mut buf, stride) = test_surface(10, 10);
    for chunk in buf.chunks_exact_mut(4) {
        chunk.copy_from_slice(&[255, 255, 255, 255]);
    }
    let mut surface = Surface {
        buf: &mut buf,
        width: 10,
        height: 10,
        stride,
    };
    let glyph = GlyphImage {
        alpha: vec![128],
        width: 1,
        height: 1,
        left: 0,
        top: 1,
    };
    draw_glyph(&mut surface, 0, 0, 10, &glyph, (0, 0, 0));
    let py = 7u32;
    let off = (py * stride) as usize;
    let blended_b = *surface.buf.get(off).expect("B");
    assert!(
        (100..=160).contains(&blended_b),
        "expected ~128, got {blended_b}"
    );
}


#[test]
fn test_resolve_cell_colors_normal() {
    let style = default_cell_style();
    let colors = RenderColors {
        foreground: (200, 150, 100),
        background: (10, 20, 30),
        cursor: None,
        palette: [(0, 0, 0); 256],
    };
    let (fg, bg) = resolve_cell_colors(&style, &colors, true);
    assert_eq!(fg, (200, 150, 100));
    assert_eq!(bg, (10, 20, 30));
}


#[test]
fn test_resolve_cell_colors_inverse_swaps() {
    let mut style = default_cell_style();
    style.attrs = CellStyleAttrs::from_bits(CellStyleAttrs::INVERSE);
    let colors = RenderColors {
        foreground: (200, 150, 100),
        background: (10, 20, 30),
        cursor: None,
        palette: [(0, 0, 0); 256],
    };
    let (fg, bg) = resolve_cell_colors(&style, &colors, true);
    assert_eq!(fg, (10, 20, 30), "inverse should swap fg to bg");
    assert_eq!(bg, (200, 150, 100), "inverse should swap bg to fg");
}


#[test]
fn test_resolve_cell_colors_bold_bright_remap() {
    let mut style = default_cell_style();
    style.attrs = CellStyleAttrs::from_bits(CellStyleAttrs::BOLD);
    style.fg_tag = STYLE_COLOR_PALETTE;
    style.fg_palette = 1;
    let mut palette = [(0u8, 0u8, 0u8); 256];
    palette[1] = (170, 0, 0);
    palette[9] = (255, 85, 85);
    let colors = RenderColors {
        foreground: (200, 200, 200),
        background: (0, 0, 0),
        cursor: None,
        palette,
    };
    let (fg, _bg) = resolve_cell_colors(&style, &colors, true);
    assert_eq!(
        fg,
        (255, 85, 85),
        "bold + palette 0-7 should remap to bright"
    );
}


#[test]
fn test_resolve_cell_colors_faint_halves() {
    let mut style = default_cell_style();
    style.attrs = CellStyleAttrs::from_bits(CellStyleAttrs::FAINT);
    let colors = RenderColors {
        foreground: (200, 100, 50),
        background: (0, 0, 0),
        cursor: None,
        palette: [(0, 0, 0); 256],
    };
    let (fg, _bg) = resolve_cell_colors(&style, &colors, true);
    assert_eq!(fg, (100, 50, 25), "faint should halve fg channels via >>1");
}


#[test]
fn test_draw_box_glyph_all_opaque() {
    let (mut buf, stride) = test_surface(4, 4);
    for chunk in buf.chunks_exact_mut(4) {
        chunk.copy_from_slice(&[10, 20, 30, 255]);
    }
    let mut surface = Surface {
        buf: &mut buf,
        width: 4,
        height: 4,
        stride,
    };
    let alpha_buf = vec![255u8; 16];
    let rect = Rect {
        x: 0,
        y: 0,
        w: 4,
        h: 4,
    };
    draw_box_glyph(&mut surface, &rect, &alpha_buf, (200, 100, 50));
    for chunk in surface.buf.chunks_exact(4) {
        assert_eq!(chunk, &[50, 100, 200, 0xFF]);
    }
}


#[test]
fn test_draw_box_glyph_partial_surface() {
    let (mut buf, stride) = test_surface(4, 4);
    let mut surface = Surface {
        buf: &mut buf,
        width: 4,
        height: 4,
        stride,
    };
    let alpha_buf = vec![255u8; 100];
    let rect = Rect {
        x: 2,
        y: 2,
        w: 10,
        h: 10,
    };
    draw_box_glyph(&mut surface, &rect, &alpha_buf, (255, 0, 0));
    let offset = (3 * stride + 3 * 4) as usize;
    assert_eq!(*surface.buf.get(offset + 2).expect("R"), 255);
}


#[test]
fn test_blend_channel_commutativity_counterexample() {
    let r1 = blend_channel(200, 50, 100);
    let r2 = blend_channel(50, 200, 100);
    assert_ne!(
        r1, r2,
        "blend_channel should NOT be commutative: blend(200,50,100)={r1} vs blend(50,200,100)={r2}"
    );
}


#[test]
fn test_draw_rect_zero_width() {
    let (mut buf, _) = test_surface(10, 10);
    let original = buf.clone();
    let mut surface = Surface {
        buf: &mut buf,
        width: 10,
        height: 10,
        stride: 40,
    };
    let rect = Rect {
        x: 3,
        y: 3,
        w: 0,
        h: 5,
    };
    draw_rect(&mut surface, &rect, (255, 128, 64));
    assert_eq!(
        surface.buf,
        &original[..],
        "zero-width rect should not change any pixels"
    );
}


#[test]
fn test_draw_rect_zero_height() {
    let (mut buf, _) = test_surface(10, 10);
    let original = buf.clone();
    let mut surface = Surface {
        buf: &mut buf,
        width: 10,
        height: 10,
        stride: 40,
    };
    let rect = Rect {
        x: 3,
        y: 3,
        w: 5,
        h: 0,
    };
    draw_rect(&mut surface, &rect, (255, 128, 64));
    assert_eq!(
        surface.buf,
        &original[..],
        "zero-height rect should not change any pixels"
    );
}


#[test]
fn test_set_pixel_bgra_order() {
    let (mut buf, _) = test_surface(4, 4);
    let mut surface = Surface {
        buf: &mut buf,
        width: 4,
        height: 4,
        stride: 16,
    };
    set_pixel(&mut surface, 0, 0, (0xAA, 0xBB, 0xCC));
    assert_eq!(
        *surface.buf.first().expect("byte 0 = B"),
        0xCC,
        "byte 0 should be B"
    );
    assert_eq!(
        *surface.buf.get(1).expect("byte 1 = G"),
        0xBB,
        "byte 1 should be G"
    );
    assert_eq!(
        *surface.buf.get(2).expect("byte 2 = R"),
        0xAA,
        "byte 2 should be R"
    );
    assert_eq!(
        *surface.buf.get(3).expect("byte 3 = A"),
        0xFF,
        "byte 3 should be A"
    );
}


#[test]
fn test_draw_rect_alpha_half_blending() {
    let (mut buf, _) = test_surface(4, 4);
    for chunk in buf.chunks_exact_mut(4) {
        chunk.copy_from_slice(&[255, 255, 255, 255]);
    }
    let mut surface = Surface {
        buf: &mut buf,
        width: 4,
        height: 4,
        stride: 16,
    };
    let rect = Rect {
        x: 0,
        y: 0,
        w: 4,
        h: 4,
    };
    draw_rect_alpha(&mut surface, &rect, (0, 0, 0), 128);
    for chunk in surface.buf.chunks_exact(4) {
        let b_val = *chunk.first().expect("B");
        let g_val = *chunk.get(1).expect("G");
        let r_val = *chunk.get(2).expect("R");
        let a_val = *chunk.get(3).expect("A");
        assert!(
            (100..=160).contains(&b_val),
            "B channel should be ~128, got {b_val}"
        );
        assert!(
            (100..=160).contains(&g_val),
            "G channel should be ~128, got {g_val}"
        );
        assert!(
            (100..=160).contains(&r_val),
            "R channel should be ~128, got {r_val}"
        );
        assert_eq!(a_val, 0xFF, "alpha should be 0xFF");
    }
}


#[test]
fn test_draw_underline_variant_zero_noop() {
    let (mut buf, stride) = test_surface(8, 16);
    let original = buf.clone();
    let mut surface = Surface {
        buf: &mut buf,
        width: 8,
        height: 16,
        stride,
    };
    draw_underline(&mut surface, 0, 0, 8, 16, 0, (255, 255, 255));
    assert_eq!(surface.buf, &original[..], "variant 0 should be noop");
}


#[test]
fn test_draw_underline_double_small_cell() {
    let (mut buf, stride) = test_surface(8, 2);
    let mut surface = Surface {
        buf: &mut buf,
        width: 8,
        height: 2,
        stride,
    };
    draw_underline(&mut surface, 0, 0, 8, 2, 2, (255, 255, 255));
    let filled: usize = surface
        .buf
        .chunks_exact(4)
        .filter(|c| *c.get(2).expect("R byte") == 255)
        .count();
    assert!(
        filled > 0,
        "double underline on tiny cell should fall back to single"
    );
}


#[test]
fn test_draw_underline_default_fallback() {
    let (mut buf, stride) = test_surface(8, 16);
    let mut surface = Surface {
        buf: &mut buf,
        width: 8,
        height: 16,
        stride,
    };
    draw_underline(&mut surface, 0, 0, 8, 16, 99, (255, 255, 255));
    let filled: usize = surface
        .buf
        .chunks_exact(4)
        .filter(|c| *c.get(2).expect("R byte") == 255)
        .count();
    assert_eq!(
        filled, 8,
        "default fallback should draw full-width single line"
    );
}


#[test]
fn test_draw_underline_all_variants_no_panic() {
    for variant in 0..=10 {
        let (mut buf, stride) = test_surface(12, 20);
        let mut surface = Surface {
            buf: &mut buf,
            width: 12,
            height: 20,
            stride,
        };
        draw_underline(&mut surface, 0, 0, 12, 20, variant, (200, 100, 50));
    }
}


#[test]
fn test_draw_underline_curly_has_wavy_pattern() {
    let (mut buf, stride) = test_surface(16, 20);
    let mut surface = Surface {
        buf: &mut buf,
        width: 16,
        height: 20,
        stride,
    };
    draw_underline(&mut surface, 0, 0, 16, 20, 3, (255, 255, 255));
    let ul_y = 18u32;
    let mut rows_hit = [false; 2];
    for dx in 0..16u32 {
        for (idx, dy) in [0u32, 1].iter().enumerate() {
            let py = ul_y + dy;
            if py < 20 {
                let off = (py * stride + dx * 4) as usize;
                if *surface.buf.get(off + 2).expect("R") == 255 {
                    if let Some(slot) = rows_hit.get_mut(idx) {
                        *slot = true;
                    }
                }
            }
        }
    }
    assert!(
        rows_hit.iter().all(|&h| h),
        "curly underline should have pixels on two rows (wave pattern)"
    );
}


#[test]
fn test_draw_underline_dotted_exact_count() {
    let (mut buf, stride) = test_surface(10, 16);
    let mut surface = Surface {
        buf: &mut buf,
        width: 10,
        height: 16,
        stride,
    };
    draw_underline(&mut surface, 0, 0, 10, 16, 4, (255, 255, 255));
    let filled: usize = surface
        .buf
        .chunks_exact(4)
        .filter(|c| *c.get(2).expect("R") == 255)
        .count();
    assert_eq!(
        filled, 5,
        "dotted underline for width=10 should have 5 pixels"
    );
}


#[test]
fn test_draw_underline_dashed_pattern() {
    let (mut buf, stride) = test_surface(18, 16);
    let mut surface = Surface {
        buf: &mut buf,
        width: 18,
        height: 16,
        stride,
    };
    draw_underline(&mut surface, 0, 0, 18, 16, 5, (255, 255, 255));
    let filled: usize = surface
        .buf
        .chunks_exact(4)
        .filter(|c| *c.get(2).expect("R") == 255)
        .count();
    assert_eq!(
        filled, 9,
        "dashed underline for width=18 should have 9 on-pixels"
    );
}


#[test]
fn test_copy_retained_to_shm_equal_lengths() {
    let mut shm = vec![0u8; 100];
    let mut retained = vec![42u8; 100];
    let mut target = RenderTarget {
        buf: &mut shm,
        width: 5,
        height: 5,
        stride: 20,
        retained: &mut retained,
    };
    copy_retained_to_shm(&mut target);
    assert!(
        target.buf.iter().all(|&b| b == 42),
        "equal-length copy should transfer all bytes"
    );
}


#[test]
fn test_copy_retained_to_shm_retained_shorter() {
    // Retained buffer is smaller than SHM (e.g. resize grew the window).
    // Should copy what's available and zero-fill the rest.
    let mut shm = vec![0xFFu8; 200];
    let mut retained = vec![42u8; 100];
    let mut target = RenderTarget {
        buf: &mut shm,
        width: 10,
        height: 5,
        stride: 40,
        retained: &mut retained,
    };
    copy_retained_to_shm(&mut target);
    // First 100 bytes should be from retained
    assert!(
        target
            .buf
            .get(..100)
            .expect("first 100 bytes")
            .iter()
            .all(|&b| b == 42),
        "first portion should be copied from retained"
    );
    // Remaining bytes should be zeroed
    assert!(
        target
            .buf
            .get(100..)
            .expect("remaining bytes")
            .iter()
            .all(|&b| b == 0),
        "remainder should be zero-filled"
    );
}


#[test]
fn test_copy_retained_to_shm_retained_longer() {
    // Retained buffer is larger than SHM (e.g. resize shrank the window).
    // Should copy only up to SHM length without panic.
    let mut shm = vec![0u8; 100];
    let mut retained = vec![42u8; 200];
    let mut target = RenderTarget {
        buf: &mut shm,
        width: 5,
        height: 5,
        stride: 20,
        retained: &mut retained,
    };
    copy_retained_to_shm(&mut target);
    assert!(
        target.buf.iter().all(|&b| b == 42),
        "SHM buffer should be fully filled from retained"
    );
}


#[test]
fn test_copy_retained_to_shm_empty_retained() {
    // Empty retained buffer (first frame before any render).
    let mut shm = vec![0xFFu8; 100];
    let mut retained: Vec<u8> = Vec::new();
    let mut target = RenderTarget {
        buf: &mut shm,
        width: 5,
        height: 5,
        stride: 20,
        retained: &mut retained,
    };
    copy_retained_to_shm(&mut target);
    assert!(
        target.buf.iter().all(|&b| b == 0),
        "SHM buffer should be zero-filled when retained is empty"
    );
}

