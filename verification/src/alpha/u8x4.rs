//! Alpha premultiplication over 4-byte pixels: the fourth component is the
//! alpha; the first three are multiplied by it (or divided by it again),
//! component by component.

use crate::alpha::common::{div_and_clip, div_and_clip_spec, mul_div_255, mul_div_255_spec,
    recip_alpha_spec};
use crate::image_view::{ImageView, ImageViewMut};
use crate::pixels::U8x4;
use vstd::pervasive::VecAdditionalExecFns;
use vstd::prelude::*;

verus! {

/// One color component of a premultiplied pixel.
pub open spec fn premult_comp(comp: int, alpha: int) -> int {
    mul_div_255_spec(comp, alpha)
}

/// One color component of a pixel whose premultiplication is undone.
pub open spec fn unpremult_comp(comp: int, alpha: int) -> int {
    div_and_clip_spec(comp, recip_alpha_spec(alpha))
}

/// Multiplies a pixel's color components by its alpha.
pub fn multiply_alpha_pixel(pixel: U8x4) -> (r: U8x4)
    ensures
        r.0@[0] == premult_comp(pixel.0@[0] as int, pixel.0@[3] as int),
        r.0@[1] == premult_comp(pixel.0@[1] as int, pixel.0@[3] as int),
        r.0@[2] == premult_comp(pixel.0@[2] as int, pixel.0@[3] as int),
        r.0@[3] == pixel.0@[3],
{
    let alpha = pixel.0[3];
    U8x4(
        [
            mul_div_255(pixel.0[0], alpha),
            mul_div_255(pixel.0[1], alpha),
            mul_div_255(pixel.0[2], alpha),
            alpha,
        ],
    )
}

/// Divides a pixel's color components by its alpha, saturating.
pub fn divide_alpha_pixel(pixel: U8x4) -> (r: U8x4)
    ensures
        r.0@[0] == unpremult_comp(pixel.0@[0] as int, pixel.0@[3] as int),
        r.0@[1] == unpremult_comp(pixel.0@[1] as int, pixel.0@[3] as int),
        r.0@[2] == unpremult_comp(pixel.0@[2] as int, pixel.0@[3] as int),
        r.0@[3] == pixel.0@[3],
{
    let alpha = pixel.0[3];
    let recip_alpha = recip_alpha_of(alpha);
    U8x4(
        [
            div_and_clip(pixel.0[0], recip_alpha),
            div_and_clip(pixel.0[1], recip_alpha),
            div_and_clip(pixel.0[2], recip_alpha),
            alpha,
        ],
    )
}

/// The fixed-point reciprocal of one alpha value.
fn recip_alpha_of(alpha: u8) -> (r: u32)
    ensures
        r == recip_alpha_spec(alpha as int),
        r <= 65280,
{
    if alpha == 0 {
        0
    } else {
        proof {
            assert(130560int / (alpha as int) <= 130560) by (nonlinear_arith)
                requires
                    1 <= alpha as int,
            ;
        }
        (130560u32 / (alpha as u32) + 1) / 2
    }
}

/// Premultiplies a row of pixels.
pub fn multiply_alpha_row(src_row: &[U8x4]) -> (r: Vec<U8x4>)
    ensures
        r@.len() == src_row@.len(),
        forall|i: int|
            0 <= i < r@.len() ==> call_premult_ok(src_row@[i], #[trigger] r@[i]),
{
    let mut res: Vec<U8x4> = Vec::new();
    let mut i: usize = 0;
    while i < src_row.len()
        invariant
            i <= src_row@.len(),
            res@.len() == i,
            forall|k: int| 0 <= k < i ==> call_premult_ok(src_row@[k], #[trigger] res@[k]),
        decreases src_row@.len() - i,
    {
        res.push(multiply_alpha_pixel(*vstd::slice::slice_index_get(src_row, i)));
        i = i + 1;
    }
    res
}

/// `out` is `p` with its color components premultiplied.
pub open spec fn call_premult_ok(p: U8x4, out: U8x4) -> bool {
    &&& out.0@[0] == premult_comp(p.0@[0] as int, p.0@[3] as int)
    &&& out.0@[1] == premult_comp(p.0@[1] as int, p.0@[3] as int)
    &&& out.0@[2] == premult_comp(p.0@[2] as int, p.0@[3] as int)
    &&& out.0@[3] == p.0@[3]
}

/// `out` is `p` with its premultiplication undone.
pub open spec fn call_unpremult_ok(p: U8x4, out: U8x4) -> bool {
    &&& out.0@[0] == unpremult_comp(p.0@[0] as int, p.0@[3] as int)
    &&& out.0@[1] == unpremult_comp(p.0@[1] as int, p.0@[3] as int)
    &&& out.0@[2] == unpremult_comp(p.0@[2] as int, p.0@[3] as int)
    &&& out.0@[3] == p.0@[3]
}

/// Premultiplies a row of pixels in place.
pub fn multiply_alpha_row_inplace(row: &mut Vec<U8x4>)
    ensures
        final(row)@.len() == old(row)@.len(),
        forall|i: int|
            0 <= i < old(row)@.len() ==> call_premult_ok(old(row)@[i], #[trigger] final(row)@[i]),
{
    let n = row.len();
    let mut i: usize = 0;
    while i < n
        invariant
            i <= n,
            row@.len() == n,
            n == old(row)@.len(),
            forall|k: int| 0 <= k < i ==> call_premult_ok(old(row)@[k], #[trigger] row@[k]),
            forall|k: int| i <= k < n ==> #[trigger] row@[k] == old(row)@[k],
        decreases n - i,
    {
        let p = *vstd::slice::slice_index_get(row.as_slice(), i);
        row.set(i, multiply_alpha_pixel(p));
        i = i + 1;
    }
}

/// Undoes the premultiplication of a row of pixels.
pub fn divide_alpha_row(src_row: &[U8x4]) -> (r: Vec<U8x4>)
    ensures
        r@.len() == src_row@.len(),
        forall|i: int|
            0 <= i < r@.len() ==> call_unpremult_ok(src_row@[i], #[trigger] r@[i]),
{
    let mut res: Vec<U8x4> = Vec::new();
    let mut i: usize = 0;
    while i < src_row.len()
        invariant
            i <= src_row@.len(),
            res@.len() == i,
            forall|k: int| 0 <= k < i ==> call_unpremult_ok(src_row@[k], #[trigger] res@[k]),
        decreases src_row@.len() - i,
    {
        res.push(divide_alpha_pixel(*vstd::slice::slice_index_get(src_row, i)));
        i = i + 1;
    }
    res
}

/// `dst` byte `t` of the image region after premultiplying `src`: color
/// components are scaled by their pixel's alpha, alphas stay.
pub open spec fn premult_byte(src: Seq<u8>, t: int) -> int {
    let q = t / 4;
    let c = t % 4;
    if c == 3 {
        src[t] as int
    } else {
        premult_comp(src[t] as int, src[4 * q + 3] as int)
    }
}

/// `dst` byte `t` of the image region after undoing premultiplication.
pub open spec fn unpremult_byte(src: Seq<u8>, t: int) -> int {
    let q = t / 4;
    let c = t % 4;
    if c == 3 {
        src[t] as int
    } else {
        unpremult_comp(src[t] as int, src[4 * q + 3] as int)
    }
}

/// Premultiplies every pixel of the source view's image region into the
/// destination view; the extents must agree.
#[verifier::loop_isolation(false)]
pub fn multiply_alpha(src_image: &ImageView, dst_image: &mut ImageViewMut)
    requires
        src_image.wf(),
        old(dst_image).wf(),
        src_image.spec_width() == old(dst_image).spec_width(),
        src_image.spec_height() == old(dst_image).spec_height(),
    ensures
        final(dst_image).spec_width() == old(dst_image).spec_width(),
        final(dst_image).spec_height() == old(dst_image).spec_height(),
        final(dst_image).spec_data().len() == old(dst_image).spec_data().len(),
        forall|t: int|
            0 <= t < 4 * src_image.spec_width() * src_image.spec_height() ==> final(dst_image).spec_data()[t] == premult_byte(src_image.spec_data(), t),
        forall|t: int|
            4 * src_image.spec_width() * src_image.spec_height() <= t < old(dst_image).spec_data().len() ==> final(dst_image).spec_data()[t] == old(dst_image).spec_data()[t],
{
    let w = src_image.width();
    let h = src_image.height();
    proof {
        lemma_region_assoc(w as int, h as int);
    }
    let sdata = src_image.data_ref();
    let ddata = dst_image.data_mut();
    let d_len = ddata.len();
    let count: usize = w * h;
    let ghost d0 = ddata@;
    let mut q: usize = 0;
    while q < count
        invariant
            q <= count,
            ddata@.len() == d_len,
            forall|t: int|
                0 <= t < 4 * q ==> #[trigger] ddata@[t] == premult_byte(src_image.spec_data(), t),
            forall|t: int| 4 * q <= t < d_len ==> #[trigger] ddata@[t] == d0[t],
        decreases count - q,
    {
        proof {
            lemma_pixel_span(q as int, count as int);
        }
        let base: usize = 4 * q;
        let p = U8x4(
            [
                *vstd::slice::slice_index_get(sdata.as_slice(), base),
                *vstd::slice::slice_index_get(sdata.as_slice(), base + 1),
                *vstd::slice::slice_index_get(sdata.as_slice(), base + 2),
                *vstd::slice::slice_index_get(sdata.as_slice(), base + 3),
            ],
        );
        let m = multiply_alpha_pixel(p);
        ddata.set(base, m.0[0]);
        ddata.set(base + 1, m.0[1]);
        ddata.set(base + 2, m.0[2]);
        ddata.set(base + 3, m.0[3]);
        proof {
            lemma_byte_coords(q as int);
        }
        q = q + 1;
    }
}

/// Premultiplies every pixel of the view's image region in place.
#[verifier::loop_isolation(false)]
pub fn multiply_alpha_inplace(image: &mut ImageViewMut)
    requires
        old(image).wf(),
    ensures
        final(image).spec_width() == old(image).spec_width(),
        final(image).spec_height() == old(image).spec_height(),
        final(image).spec_data().len() == old(image).spec_data().len(),
        forall|t: int|
            0 <= t < 4 * old(image).spec_width() * old(image).spec_height() ==> final(image).spec_data()[t] == premult_byte(old(image).spec_data(), t),
        forall|t: int|
            4 * old(image).spec_width() * old(image).spec_height() <= t < old(image).spec_data().len() ==> final(image).spec_data()[t] == old(image).spec_data()[t],
{
    let w = image.width();
    let h = image.height();
    proof {
        lemma_region_assoc(w as int, h as int);
    }
    let ddata = image.data_mut();
    let d_len = ddata.len();
    let count: usize = w * h;
    let ghost d0 = ddata@;
    let mut q: usize = 0;
    while q < count
        invariant
            q <= count,
            ddata@.len() == d_len,
            forall|t: int| 0 <= t < 4 * q ==> #[trigger] ddata@[t] == premult_byte(d0, t),
            forall|t: int| 4 * q <= t < d_len ==> #[trigger] ddata@[t] == d0[t],
        decreases count - q,
    {
        proof {
            lemma_pixel_span(q as int, count as int);
        }
        let base: usize = 4 * q;
        let p = U8x4(
            [
                *vstd::slice::slice_index_get(ddata.as_slice(), base),
                *vstd::slice::slice_index_get(ddata.as_slice(), base + 1),
                *vstd::slice::slice_index_get(ddata.as_slice(), base + 2),
                *vstd::slice::slice_index_get(ddata.as_slice(), base + 3),
            ],
        );
        let m = multiply_alpha_pixel(p);
        ddata.set(base, m.0[0]);
        ddata.set(base + 1, m.0[1]);
        ddata.set(base + 2, m.0[2]);
        ddata.set(base + 3, m.0[3]);
        proof {
            lemma_byte_coords(q as int);
        }
        q = q + 1;
    }
}

/// Undoes the premultiplication of every pixel of the source view's image
/// region into the destination view; the extents must agree.
#[verifier::loop_isolation(false)]
pub fn divide_alpha(src_image: &ImageView, dst_image: &mut ImageViewMut)
    requires
        src_image.wf(),
        old(dst_image).wf(),
        src_image.spec_width() == old(dst_image).spec_width(),
        src_image.spec_height() == old(dst_image).spec_height(),
    ensures
        final(dst_image).spec_width() == old(dst_image).spec_width(),
        final(dst_image).spec_height() == old(dst_image).spec_height(),
        final(dst_image).spec_data().len() == old(dst_image).spec_data().len(),
        forall|t: int|
            0 <= t < 4 * src_image.spec_width() * src_image.spec_height() ==> final(dst_image).spec_data()[t] == unpremult_byte(src_image.spec_data(), t),
        forall|t: int|
            4 * src_image.spec_width() * src_image.spec_height() <= t < old(dst_image).spec_data().len() ==> final(dst_image).spec_data()[t] == old(dst_image).spec_data()[t],
{
    let w = src_image.width();
    let h = src_image.height();
    proof {
        lemma_region_assoc(w as int, h as int);
    }
    let sdata = src_image.data_ref();
    let ddata = dst_image.data_mut();
    let d_len = ddata.len();
    let count: usize = w * h;
    let ghost d0 = ddata@;
    let mut q: usize = 0;
    while q < count
        invariant
            q <= count,
            ddata@.len() == d_len,
            forall|t: int|
                0 <= t < 4 * q ==> #[trigger] ddata@[t] == unpremult_byte(
                    src_image.spec_data(),
                    t,
                ),
            forall|t: int| 4 * q <= t < d_len ==> #[trigger] ddata@[t] == d0[t],
        decreases count - q,
    {
        proof {
            lemma_pixel_span(q as int, count as int);
        }
        let base: usize = 4 * q;
        let p = U8x4(
            [
                *vstd::slice::slice_index_get(sdata.as_slice(), base),
                *vstd::slice::slice_index_get(sdata.as_slice(), base + 1),
                *vstd::slice::slice_index_get(sdata.as_slice(), base + 2),
                *vstd::slice::slice_index_get(sdata.as_slice(), base + 3),
            ],
        );
        let m = divide_alpha_pixel(p);
        ddata.set(base, m.0[0]);
        ddata.set(base + 1, m.0[1]);
        ddata.set(base + 2, m.0[2]);
        ddata.set(base + 3, m.0[3]);
        proof {
            lemma_byte_coords(q as int);
        }
        q = q + 1;
    }
}

/// Undoes the premultiplication of every pixel of the view's image region
/// in place.
#[verifier::loop_isolation(false)]
pub fn divide_alpha_inplace(image: &mut ImageViewMut)
    requires
        old(image).wf(),
    ensures
        final(image).spec_width() == old(image).spec_width(),
        final(image).spec_height() == old(image).spec_height(),
        final(image).spec_data().len() == old(image).spec_data().len(),
        forall|t: int|
            0 <= t < 4 * old(image).spec_width() * old(image).spec_height() ==> final(image).spec_data()[t] == unpremult_byte(old(image).spec_data(), t),
        forall|t: int|
            4 * old(image).spec_width() * old(image).spec_height() <= t < old(image).spec_data().len() ==> final(image).spec_data()[t] == old(image).spec_data()[t],
{
    let w = image.width();
    let h = image.height();
    proof {
        lemma_region_assoc(w as int, h as int);
    }
    let ddata = image.data_mut();
    let d_len = ddata.len();
    let count: usize = w * h;
    let ghost d0 = ddata@;
    let mut q: usize = 0;
    while q < count
        invariant
            q <= count,
            ddata@.len() == d_len,
            forall|t: int| 0 <= t < 4 * q ==> #[trigger] ddata@[t] == unpremult_byte(d0, t),
            forall|t: int| 4 * q <= t < d_len ==> #[trigger] ddata@[t] == d0[t],
        decreases count - q,
    {
        proof {
            lemma_pixel_span(q as int, count as int);
        }
        let base: usize = 4 * q;
        let p = U8x4(
            [
                *vstd::slice::slice_index_get(ddata.as_slice(), base),
                *vstd::slice::slice_index_get(ddata.as_slice(), base + 1),
                *vstd::slice::slice_index_get(ddata.as_slice(), base + 2),
                *vstd::slice::slice_index_get(ddata.as_slice(), base + 3),
            ],
        );
        let m = divide_alpha_pixel(p);
        ddata.set(base, m.0[0]);
        ddata.set(base + 1, m.0[1]);
        ddata.set(base + 2, m.0[2]);
        ddata.set(base + 3, m.0[3]);
        proof {
            lemma_byte_coords(q as int);
        }
        q = q + 1;
    }
}

/// The image region holds `4 * (w * h)` bytes.
proof fn lemma_region_assoc(w: int, h: int) by (nonlinear_arith)
    requires
        0 <= w,
        0 <= h,
    ensures
        0 <= w * h,
        w * h <= 4 * (w * h),
        4 * (w * h) == 4 * w * h,
{
}

/// Pixel `q`'s four bytes lie inside the region of `count` pixels.
proof fn lemma_pixel_span(q: int, count: int) by (nonlinear_arith)
    requires
        0 <= q < count,
    ensures
        0 <= 4 * q,
        4 * q + 4 <= 4 * count,
{
}

/// The pixel and component coordinates of pixel `q`'s four bytes.
proof fn lemma_byte_coords(q: int)
    requires
        0 <= q,
    ensures
        (4 * q + 0) / 4 == q && (4 * q + 0) % 4 == 0,
        (4 * q + 1) / 4 == q && (4 * q + 1) % 4 == 1,
        (4 * q + 2) / 4 == q && (4 * q + 2) % 4 == 2,
        (4 * q + 3) / 4 == q && (4 * q + 3) % 4 == 3,
{
    vstd::arithmetic::div_mod::lemma_fundamental_div_mod_converse(4 * q + 0, 4, q, 0);
    vstd::arithmetic::div_mod::lemma_fundamental_div_mod_converse(4 * q + 1, 4, q, 1);
    vstd::arithmetic::div_mod::lemma_fundamental_div_mod_converse(4 * q + 2, 4, q, 2);
    vstd::arithmetic::div_mod::lemma_fundamental_div_mod_converse(4 * q + 3, 4, q, 3);
}

} // verus!
