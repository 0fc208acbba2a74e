//! The selection of resampling filter kernels.
//!
//! A kernel is a weighting function over normalized distance together with a
//! finite support radius.  Kernel evaluation happens in floating point while
//! coefficient windows are prepared, so it lives with the unverified
//! front end; the verified pipeline needs only the kernel's name.

use vstd::prelude::*;

verus! {

/// The filter kernels an image can be resampled with.
#[derive(Debug, Clone, Copy, PartialEq, Eq, Structural)]
#[non_exhaustive]
pub enum FilterType {
    /// Support radius 1.  Sharper than bilinear on downscale; not suited to
    /// upscaling.
    Hamming,
    /// Catmull-Rom bicubic, support radius 2: cubic interpolation over every
    /// pixel that may contribute to the output value.
    CatmullRom,
}

impl Default for FilterType {
    fn default() -> (r: Self)
        ensures
            r == FilterType::CatmullRom,
    {
        FilterType::CatmullRom
    }
}

} // verus!
