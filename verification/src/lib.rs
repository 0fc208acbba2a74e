//! Verified separable image resampling over 4-byte pixels.
//!
//! The crate rescales raster images held in flat byte buffers by windowed
//! filter convolution: per-output-coordinate coefficient windows, quantized to
//! fixed-point signed 16-bit weights, are applied in a horizontal and a
//! vertical pass.  The integer pipeline — views over pixel buffers, the
//! quantized-coefficient container, the convolution executor and the resize
//! orchestration — is verified; floating-point kernel evaluation and weight
//! quantization are left to the caller, which hands the quantized windows in.

pub use convolution::filters::FilterType;
pub use convolution::optimisations::Normalizer16;
pub use convolution::Bound;
pub use errors::{
    DifferentDimensionsError, DifferentTypesOfPixelsError, ImageBufferError, MappingError,
};
pub use dynamic_image_view::{DynamicImageView, DynamicImageViewMut};
pub use image::Image;
pub use image_view::{ImageView, ImageViewMut};
pub use pixels::PixelType;
pub use resizer::{CpuExtensions, ResizeAlg, Resizer};

pub mod alpha;
pub mod convolution;
pub mod dynamic_image_view;
pub mod errors;
pub mod image;
pub mod image_view;
pub mod pixels;
pub mod resizer;
