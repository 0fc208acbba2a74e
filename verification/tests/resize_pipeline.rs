//! End-to-end resampling through the public API: floating-point
//! coefficient windows are computed and quantized here, handed to the
//! verified pipeline, and the output compared against expectations.

use image_resize::{
    Bound, DynamicImageView, DynamicImageViewMut, FilterType, ImageView, ImageViewMut,
    Normalizer16, ResizeAlg, Resizer,
};

fn hamming_filter(mut x: f64) -> f64 {
    x = x.abs();
    if x == 0.0 {
        1.0
    } else if x >= 1.0 {
        0.0
    } else {
        x *= std::f64::consts::PI;
        (0.54 + 0.46 * x.cos()) * x.sin() / x
    }
}

fn catmul_filter(mut x: f64) -> f64 {
    let a = -0.5;
    x = x.abs();
    if x < 1.0 {
        ((a + 2.) * x - (a + 3.)) * x * x + 1.
    } else if x < 2.0 {
        (((x - 5.) * x + 8.) * x - 4.) * a
    } else {
        0.0
    }
}

fn get_filter_func(filter_type: FilterType) -> (fn(f64) -> f64, f64) {
    match filter_type {
        FilterType::Hamming => (hamming_filter, 1.0),
        FilterType::CatmullRom => (catmul_filter, 2.0),
        _ => panic!("unknown filter type"),
    }
}

fn precompute_coefficients(
    in_size: usize,
    in0: f64,
    in1: f64,
    out_size: usize,
    filter: fn(f64) -> f64,
    filter_support: f64,
) -> (Vec<f64>, usize, Vec<Bound>) {
    let scale = (in1 - in0) / out_size as f64;
    let filter_scale = scale.max(1.0);
    let filter_radius = filter_support * filter_scale;
    let window_size = filter_radius.ceil() as usize * 2 + 1;
    let recip_filter_scale = 1.0 / filter_scale;

    let mut coeffs: Vec<f64> = Vec::with_capacity(window_size * out_size);
    let mut bounds: Vec<Bound> = Vec::with_capacity(out_size);

    for out_x in 0..out_size {
        let in_center = in0 + (out_x as f64 + 0.5) * scale;
        let x_min = (in_center - filter_radius).floor().max(0.) as u32;
        let x_max = (in_center + filter_radius).ceil().min(in_size as f64) as u32;
        let cur_index = coeffs.len();
        let mut ww: f64 = 0.0;
        let center = in_center - 0.5;
        for x in x_min..x_max {
            let w: f64 = filter((x as f64 - center) * recip_filter_scale);
            coeffs.push(w);
            ww += w;
        }
        if ww != 0.0 {
            coeffs[cur_index..].iter_mut().for_each(|w| *w /= ww);
        }
        coeffs.resize(cur_index + window_size, 0.);
        bounds.push(Bound {
            start: x_min,
            size: x_max - x_min,
        });
    }

    (coeffs, window_size, bounds)
}

fn choose_precision(values: &[f64]) -> u8 {
    let max_weight = values
        .iter()
        .max_by(|x, y| x.partial_cmp(y).unwrap())
        .copied()
        .unwrap_or(0.0);
    let mut precision = 0u8;
    for cur_precision in 0..22u8 {
        precision = cur_precision;
        let next_value: i32 = (max_weight * (1i64 << (precision + 1)) as f64).round() as i32;
        if next_value >= (1 << 15) {
            break;
        }
    }
    precision
}

fn quantize(values: &[f64], precision: u8) -> Vec<i16> {
    let scale = (1i64 << precision) as f64;
    values.iter().map(|w| (w * scale).round() as i16).collect()
}

fn make_normalizer(src_extent: usize, dst_extent: usize, ft: FilterType) -> Option<Normalizer16> {
    if src_extent == dst_extent {
        return None;
    }
    let (filter, support) = get_filter_func(ft);
    let (values, window_size, bounds) =
        precompute_coefficients(src_extent, 0.0, src_extent as f64, dst_extent, filter, support);
    let precision = choose_precision(&values);
    let quantized = quantize(&values, precision);
    let normalizer = Normalizer16::new(quantized, window_size, bounds, precision)
        .expect("quantized coefficients should be accepted");
    Some(normalizer)
}

fn view_bytes(view: &ImageView, width: usize, height: usize) -> Vec<u8> {
    let mut out = Vec::with_capacity(width * height * 4);
    for y in 0..height {
        out.extend_from_slice(&view.get_row(y));
    }
    out
}

fn resize_rgba(
    rgba: &[u8],
    src_w: usize,
    src_h: usize,
    dst_w: usize,
    dst_h: usize,
    ft: FilterType,
) -> Vec<u8> {
    let src = ImageView::from_buffer(src_w, src_h, rgba).unwrap();
    let dst_zeros = vec![0u8; dst_w * dst_h * 4];
    let dst = ImageViewMut::from_buffer(dst_w, dst_h, &dst_zeros).unwrap();
    let horiz = make_normalizer(src_w, dst_w, ft);
    let vert = make_normalizer(src_h, dst_h, ft);
    let dyn_src = DynamicImageView::U8x4(src);
    let mut dyn_dst = DynamicImageViewMut::U8x4(dst);
    let mut resizer = Resizer::new(ResizeAlg::Convolution(ft));
    resizer
        .resize(&dyn_src, &mut dyn_dst, horiz, vert)
        .unwrap();
    let read: DynamicImageView = dyn_dst.into();
    match read {
        DynamicImageView::U8x4(v) => view_bytes(&v, dst_w, dst_h),
        _ => panic!("unexpected pixel format"),
    }
}

/// A reference scalar resampler, written independently over i64, to hold
/// the pipeline's output against.
fn reference_resize(
    rgba: &[u8],
    src_w: usize,
    src_h: usize,
    dst_w: usize,
    dst_h: usize,
    ft: FilterType,
) -> Vec<u8> {
    let axis = |extent: usize, out: usize| -> Option<(Vec<i16>, usize, Vec<Bound>, u8)> {
        if extent == out {
            return None;
        }
        let (filter, support) = get_filter_func(ft);
        let (values, window, bounds) =
            precompute_coefficients(extent, 0.0, extent as f64, out, filter, support);
        let precision = choose_precision(&values);
        Some((quantize(&values, precision), window, bounds, precision))
    };
    let conv_h = |data: &[u8], w: usize, h: usize, coeffs: &(Vec<i16>, usize, Vec<Bound>, u8),
                  offset: usize, out_w: usize, out_h: usize| -> Vec<u8> {
        let (values, window, bounds, p) = coeffs;
        let mut out = vec![0u8; out_w * out_h * 4];
        for r in 0..out_h {
            for o in 0..out_w {
                let b = bounds[o];
                for c in 0..4 {
                    let mut ss: i64 = 1i64 << (p - 1);
                    for j in 0..b.size as usize {
                        let col = b.start as usize + j;
                        let k = values[window * o + j] as i64;
                        let comp = data[4 * (w * (offset + r) + col) + c] as i64;
                        ss += comp * k;
                    }
                    let q = ss >> p;
                    out[4 * (out_w * r + o) + c] = q.clamp(0, 255) as u8;
                }
            }
        }
        let _ = h;
        out
    };
    let conv_v = |data: &[u8], w: usize, coeffs: &(Vec<i16>, usize, Vec<Bound>, u8),
                  shift: usize, out_w: usize, out_h: usize| -> Vec<u8> {
        let (values, window, bounds, p) = coeffs;
        let mut out = vec![0u8; out_w * out_h * 4];
        for y in 0..out_h {
            let b = bounds[y];
            for x in 0..4 * out_w {
                let mut ss: i64 = 1i64 << (p - 1);
                for j in 0..b.size as usize {
                    let row = b.start as usize - shift + j;
                    let k = values[window * y + j] as i64;
                    let comp = data[4 * w * row + x] as i64;
                    ss += comp * k;
                }
                let q = ss >> p;
                out[4 * out_w * y + x] = q.clamp(0, 255) as u8;
            }
        }
        out
    };
    let horiz = axis(src_w, dst_w);
    let vert = axis(src_h, dst_h);
    match (horiz, vert) {
        (Some(hc), Some(vc)) => {
            let y_first = vc.2[0].start as usize;
            let last = vc.2[vc.2.len() - 1];
            let y_last = last.start as usize + last.size as usize;
            let tmp = conv_h(rgba, src_w, src_h, &hc, y_first, dst_w, y_last - y_first);
            conv_v(&tmp, dst_w, &vc, y_first, dst_w, dst_h)
        }
        (Some(hc), None) => conv_h(rgba, src_w, src_h, &hc, 0, dst_w, dst_h),
        (None, Some(vc)) => conv_v(rgba, src_w, &vc, 0, dst_w, dst_h),
        (None, None) => rgba[..4 * dst_w * dst_h].to_vec(),
    }
}

fn sample_bytes(n: usize) -> Vec<u8> {
    let mut v = Vec::with_capacity(n);
    let mut x: u32 = 7;
    for _ in 0..n {
        x = x.wrapping_mul(1103515245).wrapping_add(12345);
        v.push((x >> 16) as u8);
    }
    v
}

#[test]
fn test_identity_resize_is_bit_identical() {
    let rgba = sample_bytes(3 * 2 * 4);
    for ft in [FilterType::Hamming, FilterType::CatmullRom] {
        let out = resize_rgba(&rgba, 3, 2, 3, 2, ft);
        assert_eq!(out, rgba);
    }
}

#[test]
fn test_solid_color_downscale_keeps_color() {
    let color = [10u8, 100, 200, 255];
    let mut rgba = Vec::new();
    for _ in 0..16 {
        rgba.extend_from_slice(&color);
    }
    for ft in [FilterType::Hamming, FilterType::CatmullRom] {
        let out = resize_rgba(&rgba, 4, 4, 2, 2, ft);
        assert_eq!(out.len(), 2 * 2 * 4);
        for pixel in out.chunks(4) {
            assert_eq!(pixel, color);
        }
    }
}

#[test]
fn test_upscale_output_stays_in_byte_range() {
    let rgba = sample_bytes(2 * 2 * 4);
    for ft in [FilterType::Hamming, FilterType::CatmullRom] {
        let out = resize_rgba(&rgba, 2, 2, 4, 4, ft);
        assert_eq!(out.len(), 4 * 4 * 4);
        // every component is a u8, so the range holds by construction;
        // check the pipeline against the reference implementation too.
        let reference = reference_resize(&rgba, 2, 2, 4, 4, ft);
        assert_eq!(out, reference);
    }
}

#[test]
fn test_two_pass_resize_matches_reference() {
    let rgba = sample_bytes(7 * 5 * 4);
    for ft in [FilterType::Hamming, FilterType::CatmullRom] {
        for (dw, dh) in [(3, 2), (9, 8), (4, 11), (7, 3), (2, 5)] {
            let out = resize_rgba(&rgba, 7, 5, dw, dh, ft);
            let reference = reference_resize(&rgba, 7, 5, dw, dh, ft);
            assert_eq!(out, reference, "{dw}x{dh}");
        }
    }
}

#[test]
fn test_large_downscale_smoke() {
    let (src_w, src_h) = (296usize, 205usize);
    let (dst_w, dst_h) = (207usize, 144usize);
    let color = [31u8, 63, 127, 255];
    let mut rgba = Vec::with_capacity(src_w * src_h * 4);
    for _ in 0..src_w * src_h {
        rgba.extend_from_slice(&color);
    }
    for ft in [FilterType::Hamming, FilterType::CatmullRom] {
        let out = resize_rgba(&rgba, src_w, src_h, dst_w, dst_h, ft);
        assert_eq!(out.len(), dst_w * dst_h * 4);
        for pixel in out.chunks(4) {
            assert_eq!(pixel, color);
        }
    }
    let noisy = sample_bytes(src_w * src_h * 4);
    let out = resize_rgba(&noisy, src_w, src_h, dst_w, dst_h, FilterType::Hamming);
    let reference = reference_resize(&noisy, src_w, src_h, dst_w, dst_h, FilterType::Hamming);
    assert_eq!(out, reference);
}

#[test]
fn test_bounds_cover_output_and_stay_in_source() {
    for ft in [FilterType::Hamming, FilterType::CatmullRom] {
        let (filter, support) = get_filter_func(ft);
        for (src, dst) in [(7usize, 3usize), (3, 7), (16, 4), (4, 9), (100, 1), (1, 100)] {
            let (_values, _window, bounds) =
                precompute_coefficients(src, 0.0, src as f64, dst, filter, support);
            assert_eq!(bounds.len(), dst);
            for b in &bounds {
                assert!(b.start as usize + b.size as usize <= src);
            }
        }
    }
}

#[test]
fn test_renormalized_window_sums_to_one() {
    for ft in [FilterType::Hamming, FilterType::CatmullRom] {
        let (filter, support) = get_filter_func(ft);
        for (src, dst) in [(7usize, 3usize), (3, 7), (16, 4), (4, 9)] {
            let (values, window, bounds) =
                precompute_coefficients(src, 0.0, src as f64, dst, filter, support);
            for (o, b) in bounds.iter().enumerate() {
                let active = &values[window * o..window * o + b.size as usize];
                let sum: f64 = active.iter().sum();
                if sum != 0.0 {
                    assert!((sum - 1.0).abs() < 1e-9, "sum {sum}");
                }
            }
        }
    }
}

#[test]
fn test_quantization_error_within_precision() {
    for ft in [FilterType::Hamming, FilterType::CatmullRom] {
        let (filter, support) = get_filter_func(ft);
        for (src, dst) in [(7usize, 3usize), (3, 7), (16, 4)] {
            let (values, _window, _bounds) =
                precompute_coefficients(src, 0.0, src as f64, dst, filter, support);
            let p = choose_precision(&values);
            assert!(p >= 4);
            let quantized = quantize(&values, p);
            let step = (1i64 << p) as f64;
            for (w, q) in values.iter().zip(quantized.iter()) {
                let back = *q as f64 / step;
                assert!((back - w).abs() <= 1.0 / step, "{w} vs {back}");
            }
        }
    }
}

#[test]
fn test_single_axis_resizes_match_reference() {
    let rgba = sample_bytes(6 * 4 * 4);
    for ft in [FilterType::Hamming, FilterType::CatmullRom] {
        let wide = resize_rgba(&rgba, 6, 4, 3, 4, ft);
        assert_eq!(wide, reference_resize(&rgba, 6, 4, 3, 4, ft));
        let tall = resize_rgba(&rgba, 6, 4, 6, 9, ft);
        assert_eq!(tall, reference_resize(&rgba, 6, 4, 6, 9, ft));
    }
}
