//! Software rendering into BGRA pixel buffers.

pub mod primitives;
pub mod cell_style;
pub mod cursor;
pub mod overlay;
pub mod glyph;
pub mod cells;
pub mod background;
pub mod frame;
pub mod text_overlay;
pub mod locality;

use vstd::prelude::*;

verus! {

/// RGB color tuple.
pub type Bgra = (u8, u8, u8);

/// Shared reference to the pixel buffer and its dimensions.
pub struct Surface<'a> {
    pub buf: &'a mut [u8],
    pub width: u32,
    pub height: u32,
    pub stride: u32,
}

/// Axis-aligned rectangle within the surface.
#[derive(Clone, Copy)]
pub struct Rect {
    pub x: u32,
    pub y: u32,
    pub w: u32,
    pub h: u32,
}

/// Cell grid metrics: cell size and padding.
#[derive(Clone, Copy)]
pub struct GridMetrics {
    pub cell_w: u32,
    pub cell_h: u32,
    pub pad: u32,
}

/// Normalized selection range (start before end in reading order).
#[derive(Clone, Copy)]
pub struct SelectionRange {
    pub start_col: u16,
    pub start_row: u16,
    pub end_col: u16,
    pub end_row: u16,
}

/// A search match highlight region.
#[derive(Debug, Clone, Copy)]
pub struct SearchHighlight {
    pub row: u16,
    pub start_col: u16,
    pub end_col: u16,
    pub is_current: bool,
}

/// Output target for the renderer: the shared-memory canvas and the
/// retained buffer that keeps the cell content between frames.
pub struct RenderTarget<'a> {
    pub buf: &'a mut [u8],
    pub width: u32,
    pub height: u32,
    pub stride: u32,
    pub retained: &'a mut Vec<u8>,
}

/// The canvas after copying the retained buffer into it: the common prefix
/// is copied and any canvas bytes past the end of the retained buffer are
/// zeroed.
pub open spec fn spec_copy_retained(shm_len: nat, retained: Seq<u8>) -> Seq<u8> {
    Seq::new(shm_len, |i: int| if i < retained.len() { retained[i] } else { 0u8 })
}

/// Copy the retained buffer to the canvas; when their lengths differ (for
/// a frame during a resize) copy the shorter length and zero the rest of
/// the canvas.
pub fn copy_retained_to_shm(target: &mut RenderTarget<'_>)
    ensures
        final(target).buf@ == spec_copy_retained(old(target).buf@.len(), old(target).retained@),
        final(target).retained@ == old(target).retained@,
        final(target).width == old(target).width,
        final(target).height == old(target).height,
        final(target).stride == old(target).stride,
{
    let shm_len = target.buf.len();
    let ret_len = target.retained.len();
    let ghost r0 = target.retained@;
    let mut i: usize = 0;
    while i < shm_len
        invariant
            i <= shm_len,
            shm_len == target.buf@.len(),
            shm_len == old(target).buf@.len(),
            ret_len == r0.len(),
            target.retained@ == r0,
            r0 == old(target).retained@,
            target.width == old(target).width,
            target.height == old(target).height,
            target.stride == old(target).stride,
            forall|j: int| 0 <= j < i ==> #[trigger] target.buf@[j] == (if j < r0.len() { r0[j] } else { 0u8 }),
        decreases shm_len - i,
    {
        let v = if i < ret_len { target.retained[i] } else { 0u8 };
        target.buf[i] = v;
        i = i + 1;
    }
    assert(target.buf@ =~= spec_copy_retained(shm_len as nat, r0));
}

/// When the canvas and the retained buffer have the same length, the
/// canvas ends up an exact copy of the retained buffer.
pub proof fn law_copy_same_length_is_identity(retained: Seq<u8>)
    ensures
        spec_copy_retained(retained.len(), retained) == retained,
{
    assert(spec_copy_retained(retained.len(), retained) =~= retained);
}

} // verus!
