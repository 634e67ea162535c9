//! Filling the background: the whole buffer, or only the pixel rows of
//! dirty terminal rows, with the background colour at a given opacity.

use vstd::prelude::*;
use super::{Bgra, GridMetrics};

verus! {

/// Byte `c` (blue, green, red, alpha) of a background pixel.
pub open spec fn bg_byte(color: Bgra, alpha: u8, c: int) -> u8 {
    if c == 0 {
        color.2
    } else if c == 1 {
        color.1
    } else if c == 2 {
        color.0
    } else {
        alpha
    }
}

/// The buffer with the bytes `start .. start + len` filled with background
/// pixels starting at `start`.
pub open spec fn spec_fill_span(buf: Seq<u8>, start: int, len: int, color: Bgra, alpha: u8) -> Seq<u8> {
    Seq::new(buf.len(), |i: int| if start <= i < start + len { bg_byte(color, alpha, (i - start) % 4) } else { buf[i] })
}

/// Fill `len` bytes (a multiple of 4) from `start` with background pixels.
fn fill_span(buf: &mut [u8], start: usize, len: usize, color: Bgra, alpha: u8)
    requires
        start + len <= old(buf)@.len(),
        len % 4 == 0,
    ensures
        final(buf)@ == spec_fill_span(old(buf)@, start as int, len as int, color, alpha),
{
    let ghost b0 = buf@;
    let n = buf.len();
    let mut k: usize = 0;
    while k < len
        invariant
            n == b0.len(),
            k <= len,
            k % 4 == 0,
            len % 4 == 0,
            start + len <= b0.len(),
            buf@.len() == b0.len(),
            b0 == old(buf)@,
            forall|i: int|
                0 <= i < b0.len() ==> #[trigger] buf@[i] == if start <= i < start + k {
                    bg_byte(color, alpha, (i - start) % 4)
                } else {
                    b0[i]
                },
        decreases len - k,
    {
        assert(k + 4 <= len) by (nonlinear_arith)
            requires
                k % 4 == 0,
                len % 4 == 0,
                k < len,
        ;
        let o = start + k;
        buf[o] = color.2;
        buf[o + 1] = color.1;
        buf[o + 2] = color.0;
        buf[o + 3] = alpha;
        assert forall|i: int| 0 <= i < b0.len() implies #[trigger] buf@[i] == if start <= i < start + k + 4 {
            bg_byte(color, alpha, (i - start) % 4)
        } else {
            b0[i]
        } by {
            if o <= i < o + 4 {
                vstd::arithmetic::div_mod::lemma_fundamental_div_mod_converse(i - start, 4, (k / 4) as int, i - o);
            }
        }
        k = k + 4;
    }
    assert(buf@ =~= spec_fill_span(b0, start as int, len as int, color, alpha));
}

/// The buffer after filling the first `n` pixel rows, each `row_bytes`
/// long at a multiple of `stride`, skipping rows that end past the buffer.
pub open spec fn spec_fill_rows(buf: Seq<u8>, stride: int, row_bytes: int, first: int, n: nat, color: Bgra, alpha: u8) -> Seq<u8>
    decreases n,
{
    if n == 0 {
        buf
    } else {
        let prev = spec_fill_rows(buf, stride, row_bytes, first, (n - 1) as nat, color, alpha);
        let start = (first + n - 1) * stride;
        if start + row_bytes <= prev.len() {
            spec_fill_span(prev, start, row_bytes, color, alpha)
        } else {
            prev
        }
    }
}

/// The buffer after clearing the whole background: every complete pixel
/// of the buffer when rows are packed (`stride == width * 4`), else each of
/// the `height` rows.
pub open spec fn spec_clear_background(buf: Seq<u8>, width: u32, height: u32, stride: u32, color: Bgra, alpha: u8) -> Seq<u8> {
    if stride == width * 4 {
        spec_fill_span(buf, 0, ((buf.len() / 4) * 4) as int, color, alpha)
    } else {
        spec_fill_rows(buf, stride as int, width * 4, 0, height as nat, color, alpha)
    }
}

/// Fill rows `first .. first + n` (bounded as `spec_fill_rows` says).
fn fill_rows(buf: &mut [u8], stride: u32, row_bytes: usize, first: u32, n: u32, color: Bgra, alpha: u8)
    requires
        row_bytes % 4 == 0,
        first + n <= u32::MAX,
    ensures
        final(buf)@ == spec_fill_rows(old(buf)@, stride as int, row_bytes as int, first as int, n as nat, color, alpha),
{
    let len = buf.len();
    let mut r: u32 = 0;
    while r < n
        invariant
            r <= n,
            first + n <= u32::MAX,
            row_bytes % 4 == 0,
            len == buf@.len(),
            len == old(buf)@.len(),
            buf@ == spec_fill_rows(old(buf)@, stride as int, row_bytes as int, first as int, r as nat, color, alpha),
        decreases n - r,
    {
        let fr: u64 = first as u64 + r as u64;
        let st: u64 = stride as u64;
        assert(fr * st <= u64::MAX) by (nonlinear_arith)
            requires
                fr <= u32::MAX,
                st <= u32::MAX,
        ;
        let start: u64 = fr * st;
        if start <= len as u64 && row_bytes as u64 <= len as u64 - start {
            fill_span(buf, start as usize, row_bytes, color, alpha);
        }
        r = r + 1;
    }
}

/// Clear the whole background with `color` at opacity `alpha`.
pub fn clear_background_alpha(buf: &mut [u8], width: u32, height: u32, stride: u32, bg: Bgra, alpha: u8)
    requires
        width * 4 <= usize::MAX,
    ensures
        final(buf)@ == spec_clear_background(old(buf)@, width, height, stride, bg, alpha),
{
    if stride as u64 == width as u64 * 4 {
        let len = buf.len();
        fill_span(buf, 0, (len / 4) * 4, bg, alpha);
    } else {
        fill_rows(buf, stride, width as usize * 4, 0, height, bg, alpha);
    }
}

/// The buffer after clearing the pixel rows of the first `k` dirty
/// terminal rows: row `r` covers pixel rows `r * cell_h + pad` onwards,
/// `cell_h` of them.
pub open spec fn spec_clear_dirty(
    buf: Seq<u8>,
    width: u32,
    stride: u32,
    grid: GridMetrics,
    dirty: Seq<u16>,
    k: nat,
    color: Bgra,
    alpha: u8,
) -> Seq<u8>
    decreases k,
{
    if k == 0 {
        buf
    } else {
        let prev = spec_clear_dirty(buf, width, stride, grid, dirty, (k - 1) as nat, color, alpha);
        spec_fill_rows(prev, stride as int, width * 4, dirty[k - 1] * grid.cell_h + grid.pad, grid.cell_h as nat, color, alpha)
    }
}

/// Clear only the pixel rows that belong to dirty terminal rows.
pub fn clear_dirty_rows_alpha(
    buf: &mut [u8],
    width: u32,
    stride: u32,
    grid: &GridMetrics,
    dirty_indices: &[u16],
    bg: Bgra,
    alpha: u8,
)
    requires
        width * 4 <= usize::MAX,
        forall|j: int|
            0 <= j < dirty_indices@.len() ==> #[trigger] dirty_indices@[j] * grid.cell_h + grid.pad + grid.cell_h <= u32::MAX,
    ensures
        final(buf)@ == spec_clear_dirty(old(buf)@, width, stride, *grid, dirty_indices@, dirty_indices@.len(), bg, alpha),
{
    let row_bytes = width as usize * 4;
    let mut k: usize = 0;
    while k < dirty_indices.len()
        invariant
            k <= dirty_indices@.len(),
            row_bytes == width * 4,
            forall|j: int|
                0 <= j < dirty_indices@.len() ==> #[trigger] dirty_indices@[j] * grid.cell_h + grid.pad + grid.cell_h <= u32::MAX,
            buf@ == spec_clear_dirty(old(buf)@, width, stride, *grid, dirty_indices@, k as nat, bg, alpha),
        decreases dirty_indices@.len() - k,
    {
        let row_idx = dirty_indices[k];
        assert(dirty_indices@[k as int] * grid.cell_h + grid.pad + grid.cell_h <= u32::MAX);
        assert(row_idx * grid.cell_h <= row_idx * grid.cell_h + grid.pad);
        let py_start = row_idx as u32 * grid.cell_h + grid.pad;
        fill_rows(buf, stride, row_bytes, py_start, grid.cell_h, bg, alpha);
        k = k + 1;
    }
}

/// Filling rows keeps the buffer's length.
pub proof fn lemma_fill_rows_len(buf: Seq<u8>, stride: int, row_bytes: int, first: int, n: nat, color: Bgra, alpha: u8)
    ensures
        spec_fill_rows(buf, stride, row_bytes, first, n, color, alpha).len() == buf.len(),
    decreases n,
{
    if n > 0 {
        lemma_fill_rows_len(buf, stride, row_bytes, first, (n - 1) as nat, color, alpha);
    }
}

/// Clearing the background keeps the buffer's length.
pub proof fn lemma_clear_background_len(buf: Seq<u8>, width: u32, height: u32, stride: u32, color: Bgra, alpha: u8)
    ensures
        spec_clear_background(buf, width, height, stride, color, alpha).len() == buf.len(),
{
    lemma_fill_rows_len(buf, stride as int, width * 4, 0, height as nat, color, alpha);
}

/// Clearing dirty rows keeps the buffer's length.
pub proof fn lemma_clear_dirty_len(
    buf: Seq<u8>,
    width: u32,
    stride: u32,
    grid: GridMetrics,
    dirty: Seq<u16>,
    k: nat,
    color: Bgra,
    alpha: u8,
)
    ensures
        spec_clear_dirty(buf, width, stride, grid, dirty, k, color, alpha).len() == buf.len(),
    decreases k,
{
    if k > 0 {
        let prev = spec_clear_dirty(buf, width, stride, grid, dirty, (k - 1) as nat, color, alpha);
        lemma_clear_dirty_len(buf, width, stride, grid, dirty, (k - 1) as nat, color, alpha);
        lemma_fill_rows_len(prev, stride as int, width * 4, dirty[k - 1] * grid.cell_h + grid.pad, grid.cell_h as nat, color, alpha);
    }
}

/// Whether byte `i` lies in pixel rows `first .. first + n`.
pub open spec fn in_pixel_rows(i: int, stride: int, first: int, n: int) -> bool {
    first <= i / stride < first + n
}

proof fn lemma_fill_rows_outside(buf: Seq<u8>, stride: int, row_bytes: int, first: int, n: nat, color: Bgra, alpha: u8)
    requires
        0 <= row_bytes <= stride,
        0 < stride,
    ensures
        spec_fill_rows(buf, stride, row_bytes, first, n, color, alpha).len() == buf.len(),
        forall|i: int|
            0 <= i < buf.len() && !in_pixel_rows(i, stride, first, n as int) ==> #[trigger] spec_fill_rows(
                buf,
                stride,
                row_bytes,
                first,
                n,
                color,
                alpha,
            )[i] == buf[i],
    decreases n,
{
    lemma_fill_rows_len(buf, stride, row_bytes, first, n, color, alpha);
    if n > 0 {
        lemma_fill_rows_outside(buf, stride, row_bytes, first, (n - 1) as nat, color, alpha);
        let prev = spec_fill_rows(buf, stride, row_bytes, first, (n - 1) as nat, color, alpha);
        let r = first + n - 1;
        let start = r * stride;
        assert forall|i: int| 0 <= i < buf.len() && !in_pixel_rows(i, stride, first, n as int) implies #[trigger] spec_fill_rows(
            buf,
            stride,
            row_bytes,
            first,
            n,
            color,
            alpha,
        )[i] == buf[i] by {
            assert(!in_pixel_rows(i, stride, first, n - 1));
            if start <= i < start + row_bytes {
                assert(i / stride == r) by (nonlinear_arith)
                    requires
                        r * stride <= i < r * stride + stride,
                        stride > 0,
                ;
            }
        }
    }
}

proof fn lemma_clear_dirty_outside(
    buf: Seq<u8>,
    width: u32,
    stride: u32,
    grid: GridMetrics,
    dirty: Seq<u16>,
    k: nat,
    color: Bgra,
    alpha: u8,
)
    requires
        width * 4 <= stride,
        0 < stride,
        k <= dirty.len(),
    ensures
        spec_clear_dirty(buf, width, stride, grid, dirty, k, color, alpha).len() == buf.len(),
        forall|i: int|
            0 <= i < buf.len() && (forall|j: int|
                0 <= j < k ==> !in_pixel_rows(i, stride as int, #[trigger] dirty[j] * grid.cell_h + grid.pad, grid.cell_h as int))
                ==> #[trigger] spec_clear_dirty(buf, width, stride, grid, dirty, k, color, alpha)[i] == buf[i],
    decreases k,
{
    lemma_clear_dirty_len(buf, width, stride, grid, dirty, k, color, alpha);
    if k > 0 {
        lemma_clear_dirty_outside(buf, width, stride, grid, dirty, (k - 1) as nat, color, alpha);
        let prev = spec_clear_dirty(buf, width, stride, grid, dirty, (k - 1) as nat, color, alpha);
        let first = dirty[k - 1] * grid.cell_h + grid.pad;
        lemma_fill_rows_outside(prev, stride as int, width * 4, first, grid.cell_h as nat, color, alpha);
        assert forall|i: int|
            0 <= i < buf.len() && (forall|j: int|
                0 <= j < k ==> !in_pixel_rows(i, stride as int, #[trigger] dirty[j] * grid.cell_h + grid.pad, grid.cell_h as int))
                implies #[trigger] spec_clear_dirty(buf, width, stride, grid, dirty, k, color, alpha)[i] == buf[i] by {
            assert(!in_pixel_rows(i, stride as int, dirty[k - 1] * grid.cell_h + grid.pad, grid.cell_h as int));
            assert forall|j: int| 0 <= j < k - 1 implies !in_pixel_rows(
                i,
                stride as int,
                #[trigger] dirty[j] * grid.cell_h + grid.pad,
                grid.cell_h as int,
            ) by {
                assert(0 <= j < k);
            }
        }
    }
}

/// Clearing the dirty rows touches only their pixel rows: every byte whose
/// pixel row belongs to no dirty row keeps its value.
pub proof fn law_clear_dirty_keeps_clean_rows(
    buf: Seq<u8>,
    width: u32,
    stride: u32,
    grid: GridMetrics,
    dirty: Seq<u16>,
    color: Bgra,
    alpha: u8,
    i: int,
)
    requires
        width * 4 <= stride,
        0 < stride,
        0 <= i < buf.len(),
        forall|j: int|
            0 <= j < dirty.len() ==> !in_pixel_rows(i, stride as int, #[trigger] dirty[j] * grid.cell_h + grid.pad, grid.cell_h as int),
    ensures
        spec_clear_dirty(buf, width, stride, grid, dirty, dirty.len(), color, alpha)[i] == buf[i],
{
    lemma_clear_dirty_outside(buf, width, stride, grid, dirty, dirty.len(), color, alpha);
}

} // verus!
