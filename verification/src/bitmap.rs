//! The sizes of the buffers behind a bitmap: one bit per pixel, rows padded
//! to whole bytes, and the mask, where there is one, in the same layout.

use vstd::prelude::*;

verus! {

/// The number of bytes of one plane of `height` rows of `row_bytes` bytes.
pub open spec fn plane_bytes(row_bytes: int, height: int) -> int {
    row_bytes * height
}

/// The number of bytes behind the data of a bitmap: one plane where the mask
/// lies apart, two where it does not; none where that is no size, or does not
/// fit the 32 bits in which it is counted.
pub open spec fn data_bytes(row_bytes: int, height: int, has_mask: bool) -> Option<usize> {
    let plane = plane_bytes(row_bytes, height);
    let all = if has_mask {
        plane
    } else {
        2 * plane
    };
    if 0 <= plane && all <= i32::MAX {
        Some(all as usize)
    } else {
        None
    }
}

/// The number of bytes behind the mask of a bitmap: one plane.
pub open spec fn mask_bytes(row_bytes: int, height: int) -> Option<usize> {
    data_bytes(row_bytes, height, true)
}

/// The number of bytes behind the data of a bitmap.
pub fn data_len(row_bytes: i32, height: i32, has_mask: bool) -> (len: Option<usize>)
    ensures
        len == data_bytes(row_bytes as int, height as int, has_mask),
{
    assert(-0x4000_0000_0000_0000 <= (row_bytes as int) * (height as int) <= 0x4000_0000_0000_0000)
        by (nonlinear_arith)
        requires
            -0x8000_0000 <= row_bytes as int <= 0x7fff_ffff,
            -0x8000_0000 <= height as int <= 0x7fff_ffff,
    ;
    let plane: i64 = (row_bytes as i64) * (height as i64);
    if plane < 0 {
        return None;
    }
    let all: i64 = if has_mask {
        plane
    } else if plane <= 0x7fff_ffff {
        2 * plane
    } else {
        return None;
    };
    if all <= 0x7fff_ffff {
        Some(all as usize)
    } else {
        None
    }
}

/// The number of bytes behind the mask of a bitmap.
pub fn mask_len(row_bytes: i32, height: i32) -> (len: Option<usize>)
    ensures
        len == mask_bytes(row_bytes as int, height as int),
{
    data_len(row_bytes, height, true)
}

} // verus!
