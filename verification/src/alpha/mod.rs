//! Alpha premultiplication and its inverse: a small arithmetic module
//! beside the resampling pipeline.

pub mod common;
pub mod u8x4;

pub use common::{div_and_clip, mul_div_255, recip_alpha_array};
pub use u8x4::{
    divide_alpha, divide_alpha_inplace, divide_alpha_pixel, divide_alpha_row, multiply_alpha,
    multiply_alpha_inplace, multiply_alpha_pixel, multiply_alpha_row, multiply_alpha_row_inplace,
};
