//! Sizes for the camera capture path.

use vstd::prelude::*;

verus! {

pub const PREFERRED_WIDTH: u32 = 1280;
pub const PREFERRED_HEIGHT: u32 = 720;
pub const PREFERRED_FPS: u32 = 30;

pub const RGBA_BYTES_PER_PIXEL: u32 = 4;

/// Bytes of an RGBA image of `width` by `height`: `None` for a degenerate
/// resolution, or one too large to address.
pub open spec fn spec_rgba_buffer_len(width: u32, height: u32) -> Option<usize> {
    if width == 0 || height == 0 {
        None
    } else if width * height * RGBA_BYTES_PER_PIXEL > usize::MAX {
        None
    } else {
        Some((width * height * RGBA_BYTES_PER_PIXEL) as usize)
    }
}

/// `None` for a resolution that is degenerate or too large to address.
pub fn rgba_buffer_len(width: u32, height: u32) -> (len: Option<usize>)
    ensures
        len == spec_rgba_buffer_len(width, height),
{
    if width == 0 || height == 0 {
        return None;
    }
    let w = width as usize;
    let h = height as usize;
    match w.checked_mul(h) {
        Some(pixels) => {
            let bytes = pixels.checked_mul(RGBA_BYTES_PER_PIXEL as usize);
            proof {
                assert(pixels as int * 4 == width * height * 4) by (nonlinear_arith)
                    requires
                        pixels == w * h,
                        w == width,
                        h == height,
                ;
            }
            bytes
        },
        None => {
            proof {
                assert(width * height * 4 > usize::MAX) by (nonlinear_arith)
                    requires
                        w * h > usize::MAX,
                        w == width,
                        h == height,
                ;
            }
            None
        },
    }
}

/// I420 subsamples chroma 2x2, so a capture extent is rounded down to even.
pub fn even_extent(extent: u32) -> (even: u32)
    ensures
        even == extent - extent % 2,
{
    let even = extent & !1u32;
    assert(extent & !1u32 == extent - extent % 2) by (bit_vector);
    even
}

/// What converting a `width` by `height` RGBA image to I420 hands the
/// converter: the extents as the signed integers it takes, and the RGBA
/// row stride in bytes. `None` when an extent does not fit an `i32` or the
/// stride does not fit a `u32`.
pub fn i420_geometry(width: u32, height: u32) -> (geometry: Option<(i32, i32, u32)>)
    ensures
        match geometry {
            Some((w, h, stride)) => w == width && h == height && stride == width
                * RGBA_BYTES_PER_PIXEL,
            None => width > i32::MAX || height > i32::MAX || width * RGBA_BYTES_PER_PIXEL
                > u32::MAX,
        },
{
    if width > i32::MAX as u32 || height > i32::MAX as u32 {
        return None;
    }
    match width.checked_mul(RGBA_BYTES_PER_PIXEL) {
        Some(stride) => Some((width as i32, height as i32, stride)),
        None => None,
    }
}

} // verus!
