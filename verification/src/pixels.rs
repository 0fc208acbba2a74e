//! The pixel formats the resampler understands.

use vstd::prelude::*;

verus! {

/// The pixel formats a dynamic view can carry.  A single 4-byte-per-pixel
/// format is modeled; the variant list may grow.
#[derive(Debug, Clone, Copy, PartialEq, Eq, Structural)]
#[non_exhaustive]
pub enum PixelType {
    U8x4,
}

impl PixelType {
    /// Size of one pixel of this format, in bytes.
    pub fn size(&self) -> (r: usize)
        ensures
            r == self.spec_size(),
    {
        4
    }

    /// Size of one pixel of this format, in bytes.
    pub open spec fn spec_size(self) -> nat {
        4
    }
}

/// Four bytes per pixel (RGBA8, RGBx8, CMYK8 and other).
#[derive(Debug, Clone, Copy, PartialEq, Eq)]
pub struct U8x4(pub [u8; 4]);

} // verus!
