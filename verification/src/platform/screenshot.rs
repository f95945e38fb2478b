//! Sizes of a window or screen-region capture.

use vstd::prelude::*;

verus! {

/// The size of a window rectangle, if it is not empty.
pub fn capture_size(left: i32, top: i32, right: i32, bottom: i32) -> (r: Option<(i32, i32)>)
    requires
        i32::MIN <= right - left <= i32::MAX,
        i32::MIN <= bottom - top <= i32::MAX,
    ensures
        r == (if right - left > 0 && bottom - top > 0 {
            Some(((right - left) as i32, (bottom - top) as i32))
        } else {
            None
        }),
{
    let width = right - left;
    let height = bottom - top;
    if width <= 0 || height <= 0 {
        None
    } else {
        Some((width, height))
    }
}

/// The size of a screen region to capture, if it is not empty.
pub fn region_size(width: i32, height: i32) -> (r: Option<(i32, i32)>)
    ensures
        r == (if width > 0 && height > 0 { Some((width, height)) } else { None }),
{
    if width <= 0 || height <= 0 {
        None
    } else {
        Some((width, height))
    }
}

/// The bytes of a top-down 32-bit image of `width` by `height` pixels:
/// rows padded to four bytes, which 32-bit rows already are.
pub fn bgra_buffer_len(width: i32, height: i32) -> (n: usize)
    requires
        width > 0,
        height > 0,
        width * 4 + 3 <= i32::MAX,
        width * 4 * height <= i32::MAX,
    ensures
        n == width * 4 * height,
{
    let row_bytes = ((width * 4 + 3) / 4) * 4;
    assert(row_bytes == width * 4);
    assert(row_bytes * height == width * 4 * height) by (nonlinear_arith)
        requires
            row_bytes == width * 4,
    ;
    (row_bytes * height) as usize
}

} // verus!
