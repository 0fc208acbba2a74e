//! Unit tests of the building blocks: quantized coefficients, the
//! saturating clip, alpha arithmetic, views and error paths.

use image_resize::alpha::{
    div_and_clip, divide_alpha_pixel, divide_alpha_row, mul_div_255, multiply_alpha,
    multiply_alpha_inplace, multiply_alpha_pixel, multiply_alpha_row, multiply_alpha_row_inplace,
    recip_alpha_array,
};
use image_resize::pixels::U8x4;
use image_resize::{
    Bound, CpuExtensions, DifferentDimensionsError, FilterType, Image, ImageBufferError,
    ImageView, ImageViewMut, MappingError, Normalizer16, PixelType, ResizeAlg,
};

fn simple_normalizer(precision: u8) -> Normalizer16 {
    Normalizer16::new(
        vec![1i16 << precision],
        1,
        vec![Bound { start: 0, size: 1 }],
        precision,
    )
    .expect("a one-weight window should be accepted")
}

#[test]
fn test_clip_matches_clamp_of_shifted_value() {
    let n = simple_normalizer(8);
    assert_eq!(n.precision(), 8);
    for (v, expected) in [
        (0i32, 0u8),
        (255, 0),
        (256, 1),
        (128 * 256 + 7, 128),
        (255 * 256, 255),
        (511 * 256, 255),
        (512 * 256, 255),
        (-1, 0),
        (-256, 0),
        (-512 * 256, 0),
        (1_000_000_000, 255),
        (-1_000_000_000, 0),
    ] {
        assert_eq!(n.clip(v), expected, "v = {v}");
    }
}

#[test]
fn test_normalizer_accepts_plain_windows() {
    let n = Normalizer16::new(
        vec![10, 20, 0, 5, 6, 7],
        3,
        vec![Bound { start: 0, size: 2 }, Bound { start: 1, size: 3 }],
        7,
    )
    .unwrap();
    assert_eq!(n.window_size(), 3);
    assert_eq!(n.precision(), 7);
    assert_eq!(n.bounds().len(), 2);
    assert_eq!(n.values().len(), 6);
    let chunks = n.normalized_chunks();
    assert_eq!(chunks.len(), 2);
    assert_eq!(chunks[0].start, 0);
    assert_eq!(chunks[0].values, vec![10, 20]);
    assert_eq!(chunks[1].start, 1);
    assert_eq!(chunks[1].values, vec![5, 6, 7]);
}

#[test]
fn test_normalizer_rejects_bad_shapes() {
    let one_bound = || vec![Bound { start: 0, size: 1 }];
    // precision out of range
    assert!(Normalizer16::new(vec![8], 1, one_bound(), 3).is_none());
    assert!(Normalizer16::new(vec![8], 1, one_bound(), 22).is_none());
    // empty window stride
    assert!(Normalizer16::new(vec![], 0, one_bound(), 8).is_none());
    // weight count does not match windows
    assert!(Normalizer16::new(vec![8, 9], 1, one_bound(), 8).is_none());
    // a bound larger than its window
    assert!(Normalizer16::new(vec![8], 1, vec![Bound { start: 0, size: 2 }], 8).is_none());
    // window magnitudes over the accumulator budget
    let big = vec![32000i16; 300];
    let bounds = vec![Bound { start: 0, size: 300 }];
    assert!(Normalizer16::new(big, 300, bounds, 8).is_none());
    // bounds moving backwards
    let back = vec![Bound { start: 5, size: 1 }, Bound { start: 2, size: 1 }];
    assert!(Normalizer16::new(vec![8, 8], 1, back, 8).is_none());
    let shrink = vec![Bound { start: 0, size: 3 }, Bound { start: 0, size: 1 }];
    assert!(Normalizer16::new(vec![8, 8, 8, 8, 8, 0], 3, shrink, 8).is_none());
}

#[test]
fn test_mul_div_255_exact_values() {
    assert_eq!(mul_div_255(0, 0), 0);
    assert_eq!(mul_div_255(255, 255), 255);
    assert_eq!(mul_div_255(255, 0), 0);
    assert_eq!(mul_div_255(1, 255), 1);
    assert_eq!(mul_div_255(128, 128), 64);
    assert_eq!(mul_div_255(200, 51), 40);
    for a in 0..=255u32 {
        for b in 0..=255u32 {
            let expected = ((a * b + 127) / 255) as u8;
            assert_eq!(mul_div_255(a as u8, b as u8), expected);
        }
    }
}

#[test]
fn test_recip_alpha_array_values() {
    let table = recip_alpha_array();
    assert_eq!(table.len(), 256);
    assert_eq!(table[0], 0);
    assert_eq!(table[1], 65280);
    assert_eq!(table[255], 256);
    assert_eq!(table[128], ((130560 / 128) + 1) / 2);
}

#[test]
fn test_div_and_clip_scales_and_saturates() {
    assert_eq!(div_and_clip(0, 65280), 0);
    assert_eq!(div_and_clip(255, 65280), 255);
    assert_eq!(div_and_clip(255, 256), 255);
    assert_eq!(div_and_clip(128, 256), 128);
    assert_eq!(div_and_clip(10, 0), 0);
}

#[test]
fn test_alpha_pixel_roundtrip_on_opaque_pixels() {
    let p = U8x4([10, 100, 200, 255]);
    let m = multiply_alpha_pixel(p);
    assert_eq!(m.0, [10, 100, 200, 255]);
    let d = divide_alpha_pixel(m);
    assert_eq!(d.0, [10, 100, 200, 255]);
}

#[test]
fn test_alpha_pixel_half_transparent() {
    let p = U8x4([200, 100, 0, 128]);
    let m = multiply_alpha_pixel(p);
    assert_eq!(m.0[3], 128);
    assert_eq!(m.0[0], ((200u32 * 128 + 127) / 255) as u8);
    assert_eq!(m.0[1], ((100u32 * 128 + 127) / 255) as u8);
    assert_eq!(m.0[2], 0);
    let zero_alpha = divide_alpha_pixel(U8x4([50, 60, 70, 0]));
    assert_eq!(zero_alpha.0, [0, 0, 0, 0]);
}

#[test]
fn test_alpha_rows() {
    let row = [U8x4([200, 100, 0, 128]), U8x4([255, 255, 255, 0])];
    let m = multiply_alpha_row(&row);
    assert_eq!(m.len(), 2);
    assert_eq!(m[0].0[3], 128);
    assert_eq!(m[1].0, [0, 0, 0, 0]);
    let mut inplace = row.to_vec();
    multiply_alpha_row_inplace(&mut inplace);
    assert_eq!(inplace[0].0, m[0].0);
    assert_eq!(inplace[1].0, m[1].0);
    let d = divide_alpha_row(&m);
    assert_eq!(d[1].0, [0, 0, 0, 0]);
    assert_eq!(d[0].0[3], 128);
}

#[test]
fn test_alpha_views() {
    let bytes = [200u8, 100, 0, 128, 10, 100, 200, 255];
    let src = ImageView::from_buffer(2, 1, &bytes).unwrap();
    let mut dst = ImageViewMut::from_buffer(2, 1, &[0u8; 8]).unwrap();
    multiply_alpha(&src, &mut dst);
    let out: ImageView = dst.into();
    let row = out.get_row(0);
    let expect0 = ((200u32 * 128 + 127) / 255) as u8;
    let expect1 = ((100u32 * 128 + 127) / 255) as u8;
    assert_eq!(row, vec![expect0, expect1, 0, 128, 10, 100, 200, 255]);

    let mut inplace = ImageViewMut::from_buffer(2, 1, &bytes).unwrap();
    multiply_alpha_inplace(&mut inplace);
    let out2: ImageView = inplace.into();
    assert_eq!(out2.get_row(0), row);
}

#[test]
fn test_undersized_buffers_are_rejected() {
    let r = ImageView::from_buffer(2, 2, &[0u8; 15]);
    assert!(matches!(r, Err(ImageBufferError::InvalidBufferSize)));
    let r = ImageViewMut::from_buffer(4, 1, &[0u8; 10]);
    assert!(matches!(r, Err(ImageBufferError::InvalidBufferSize)));
    let r = Image::from_vec_u8(3, 3, vec![0u8; 35], PixelType::U8x4);
    assert!(matches!(r, Err(ImageBufferError::InvalidBufferSize)));
    let r = ImageViewMut::from_pixels(2, 2, &[U8x4([0, 0, 0, 0]); 3]);
    assert!(matches!(r, Err(ImageBufferError::InvalidBufferSize)));
}

#[test]
fn test_view_accessors() {
    let bytes = [1u8, 2, 3, 4, 5, 6, 7, 8];
    let v = ImageView::from_buffer(1, 2, &bytes).unwrap();
    assert_eq!(v.width(), 1);
    assert_eq!(v.height(), 2);
    assert_eq!(v.get_row(0), vec![1, 2, 3, 4]);
    assert_eq!(v.get_row(1), vec![5, 6, 7, 8]);
    assert_eq!(v.get_row(2), Vec::<u8>::new());
    let m = ImageViewMut::from_buffer(1, 2, &bytes).unwrap();
    assert_eq!(m.width(), 1);
    assert_eq!(m.height(), 2);
}

#[test]
fn test_batched_row_access() {
    let bytes: Vec<u8> = (0..20).collect();
    let v = ImageView::from_buffer(1, 5, &bytes).unwrap();
    let two = v.get_2_rows(3).unwrap();
    assert_eq!(two[0], vec![12, 13, 14, 15]);
    assert_eq!(two[1], vec![16, 17, 18, 19]);
    assert!(v.get_2_rows(4).is_none());
    let four = v.get_4_rows(1).unwrap();
    assert_eq!(four[0], vec![4, 5, 6, 7]);
    assert_eq!(four[3], vec![16, 17, 18, 19]);
    assert!(v.get_4_rows(2).is_none());
}

#[test]
fn test_from_pixels_lays_out_bytes() {
    let pixels = [U8x4([1, 2, 3, 4]), U8x4([5, 6, 7, 8])];
    let m = ImageViewMut::from_pixels(2, 1, &pixels).unwrap();
    assert_eq!(m.width(), 2);
    let v: ImageView = m.into();
    assert_eq!(v.get_row(0), vec![1, 2, 3, 4, 5, 6, 7, 8]);
}

#[test]
fn test_copy_from_view() {
    let bytes = [9u8, 8, 7, 6];
    let src = ImageView::from_buffer(1, 1, &bytes).unwrap();
    let mut wrong = ImageViewMut::from_buffer(1, 2, &[0u8; 8]).unwrap();
    assert!(matches!(
        wrong.copy_from_view(&src),
        Err(DifferentDimensionsError)
    ));
    let mut right = ImageViewMut::from_buffer(1, 1, &[0u8; 4]).unwrap();
    assert!(right.copy_from_view(&src).is_ok());
    let out: ImageView = right.into();
    assert_eq!(out.get_row(0), vec![9, 8, 7, 6]);
}

#[test]
fn test_mapping_error_from_dimensions_error() {
    let e = MappingError::from(DifferentDimensionsError);
    assert_eq!(e, MappingError::DifferentDimensions);
}

#[test]
fn test_image_container() {
    let img = Image::new(2, 3, PixelType::U8x4);
    assert_eq!(img.buffer().len(), 24);
    assert!(img.buffer().iter().all(|&b| b == 0));
    let view = img.view();
    assert_eq!(view.width(), 2);
    assert_eq!(view.height(), 3);

    let mut img = Image::from_vec_u8(1, 1, vec![1, 2, 3, 4], PixelType::U8x4).unwrap();
    img.buffer_mut()[0] = 9;
    assert_eq!(img.buffer(), &[9, 2, 3, 4]);
    let view_mut = img.view_mut();
    assert_eq!(view_mut.width(), 1);
    assert_eq!(view_mut.height(), 1);
}

#[test]
fn test_pixel_type_size() {
    assert_eq!(PixelType::U8x4.size(), 4);
}

#[test]
fn test_defaults() {
    assert_eq!(FilterType::default(), FilterType::CatmullRom);
    assert_eq!(CpuExtensions::default(), CpuExtensions::Scalar);
    assert!(matches!(
        ResizeAlg::default(),
        ResizeAlg::Convolution(FilterType::CatmullRom)
    ));
}
