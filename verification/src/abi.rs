//! The arithmetic rules every filter entry point applies before touching the
//! pixel buffer: the byte length `width * height * 4` is computed with
//! overflow-checked multiplications, and a dimension pair whose length does
//! not fit the length representation is rejected before any buffer access.

use vstd::prelude::*;

verus! {

/// The exact byte length an RGBA8 buffer for a `width` by `height` image must
/// have: four bytes per pixel, row-major, no padding.
pub open spec fn spec_buffer_len(width: u32, height: u32) -> int {
    width * height * 4
}

/// Whether the byte length of a `width` by `height` RGBA8 image is
/// representable in the 32-bit length arithmetic of the entry-point contract.
pub open spec fn dims_representable(width: u32, height: u32) -> bool {
    width * height * 4 <= u32::MAX
}

/// Overflow-checked computation of the required buffer length. Returns the
/// length exactly when `width * height * 4` fits the length representation,
/// and `None` on any intermediate overflow.
pub fn checked_buffer_len(width: u32, height: u32) -> (r: Option<u32>)
    ensures
        dims_representable(width, height) ==> r == Some((width * height * 4) as u32),
        !dims_representable(width, height) ==> r is None,
{
    match width.checked_mul(height) {
        Some(total_pixels) => total_pixels.checked_mul(4),
        None => {
            proof {
                assert(width * height * 4 >= width * height) by (nonlinear_arith)
                    requires
                        width >= 0,
                        height >= 0,
                ;
            }
            None
        },
    }
}

} // verus!
