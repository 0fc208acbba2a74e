//! The horizontal resampling pass over 4-byte pixels.
//!
//! Each output pixel `(r, o)` blends `coeffs.bounds[o].size` consecutive
//! source pixels of source row `offset + r`, starting at column
//! `coeffs.bounds[o].start`, component by component: every output byte is
//! the clipped, bias-seeded weighted sum of the matching component of those
//! source pixels.

use crate::convolution::optimisations::{lemma_window_in_values, CoeffsModel, Normalizer16,
    MAX_WINDOW_ABS_SUM};
use crate::convolution::{abs_sum, conv_comp, dot_prefix, lemma_abs_sum_prefix_monotonic,
    lemma_abs_sum_prefix_nonneg, lemma_comp_weight_product_bound, lemma_dot_prefix_bound};
use crate::image_view::{ImageView, ImageViewMut};
use vstd::arithmetic::div_mod::lemma_fundamental_div_mod_converse;
use vstd::arithmetic::power2::{lemma2_to64, lemma_pow2_strictly_increases};
use vstd::bits::lemma_u32_shl_is_mul;
use vstd::pervasive::VecAdditionalExecFns;
use vstd::prelude::*;

verus! {

/// Output byte `i` of the horizontal pass, in the layout of
/// [`horiz_conv_grid`].
pub open spec fn horiz_conv_at(
    src: Seq<u8>,
    src_w: int,
    offset: int,
    m: CoeffsModel,
    out_w: int,
    i: int,
) -> u8 {
    let r = i / (4 * out_w);
    let xc = i % (4 * out_w);
    let o = xc / 4;
    let c = xc % 4;
    conv_comp(
        src,
        4 * src_w * (offset + r) + 4 * (m.bounds[o].start as int) + c,
        4,
        m.window(o),
        m.precision,
    )
}

/// The whole output region of the horizontal pass, rows back to back:
/// output row `r`, column `o`, component `c` weighs component `c` of the
/// source pixels `m.bounds[o].start ..` of source row `offset + r` with
/// window `o`.
pub open spec fn horiz_conv_grid(
    src: Seq<u8>,
    src_w: int,
    offset: int,
    m: CoeffsModel,
    out_w: int,
    out_h: int,
) -> Seq<u8> {
    Seq::new((4 * out_w * out_h) as nat, |i: int| horiz_conv_at(src, src_w, offset, m, out_w, i))
}

/// Applies the horizontal pass: every byte of `dst`'s image region becomes
/// the corresponding entry of [`horiz_conv_grid`]; bytes past the region
/// keep their old value.
#[verifier::loop_isolation(false)]
pub fn horiz_convolution(
    src: &ImageView,
    dst: &mut ImageViewMut,
    offset: u32,
    coeffs: &Normalizer16,
)
    requires
        src.wf(),
        old(dst).wf(),
        coeffs@.wf(),
        coeffs@.bounds.len() == old(dst).spec_width(),
        forall|i: int|
            0 <= i < coeffs@.bounds.len() ==> (#[trigger] coeffs@.bounds[i]).end()
                <= src.spec_width(),
        offset + old(dst).spec_height() <= src.spec_height(),
    ensures
        final(dst).spec_width() == old(dst).spec_width(),
        final(dst).spec_height() == old(dst).spec_height(),
        final(dst).spec_data().len() == old(dst).spec_data().len(),
        final(dst).spec_data().subrange(
            0,
            4 * old(dst).spec_width() * old(dst).spec_height(),
        ) == horiz_conv_grid(
            src.spec_data(),
            src.spec_width(),
            offset as int,
            coeffs@,
            old(dst).spec_width(),
            old(dst).spec_height(),
        ),
        forall|t: int|
            4 * old(dst).spec_width() * old(dst).spec_height() <= t < old(
                dst,
            ).spec_data().len() ==> final(dst).spec_data()[t] == old(dst).spec_data()[t],
    {
    let src_w = src.width();
    let src_h = src.height();
    let dst_w = dst.width();
    let dst_h = dst.height();
    let off = offset as usize;
    let p = coeffs.precision();
    proof {
        lemma2_to64();
        lemma_pow2_strictly_increases((p - 1) as nat, 21);
        lemma_u32_shl_is_mul(1u32, (p - 1) as u32);
    }
    let bias_u: u32 = 1u32 << ((p - 1) as u32);
    let bias: i32 = bias_u as i32;
    let ws = coeffs.window_size();
    let bounds_ref = coeffs.bounds();
    let vals_ref = coeffs.values();
    let _n_vals = vals_ref.len();
    let sdata = src.data_ref();
    let _s_len = sdata.len();
    let ghost g = horiz_conv_grid(
        src.spec_data(),
        src_w as int,
        offset as int,
        coeffs@,
        dst_w as int,
        dst_h as int,
    );
    let ddata = dst.data_mut();
    let d_len = ddata.len();
    let ghost d0 = ddata@;
    let mut r: usize = 0;
    while r < dst_h
        invariant
            r <= dst_h,
            ddata@.len() == d_len,
            forall|t: int| 0 <= t < 4 * dst_w * r ==> ddata@[t] == g[t],
            forall|t: int| 4 * dst_w * r <= t < d_len ==> ddata@[t] == d0[t],
        decreases dst_h - r,
    {
        proof {
            lemma_out_row_span(dst_w as int, r as int, dst_h as int);
        }
        let wcols: usize = dst_w * 4;
        let row_base: usize = dst_w * r * 4;
        let src_row = off + r;
        proof {
            lemma_src_row_span(src_w as int, src_row as int, src_h as int);
        }
        let src_row_base: usize = src_w * src_row * 4;
        let mut x: usize = 0;
        while x < wcols
            invariant
                x <= wcols,
                ddata@.len() == d_len,
                forall|t: int| 0 <= t < 4 * dst_w * r + x ==> ddata@[t] == g[t],
                forall|t: int| 4 * dst_w * r + x <= t < d_len ==> ddata@[t] == d0[t],
            decreases wcols - x,
        {
            let o: usize = x / 4;
            let c: usize = x % 4;
            let bnd = *vstd::slice::slice_index_get(bounds_ref.as_slice(), o);
            let first = bnd.start as usize;
            let sz = bnd.size as usize;
            proof {
                lemma_window_in_values(coeffs@, o as int);
            }
            let wbase: usize = ws * o;
            let ghost win = coeffs@.window(o as int);
            proof {
                assert(win.len() == sz);
                assert(abs_sum(win) <= MAX_WINDOW_ABS_SUM);
                lemma_abs_sum_prefix_nonneg(win, win.len() as int);
            }
            let ghost base = 4 * (src_w as int) * (src_row as int) + 4 * (first as int) + (
            c as int);
            let mut ss: i32 = bias;
            let mut j: usize = 0;
            while j < sz
                invariant
                    j <= sz,
                    ss == bias + dot_prefix(src.spec_data(), base, 4, win, j as int),
                    -255 * abs_sum(win) <= ss - bias <= 255 * abs_sum(win),
                decreases sz - j,
            {
                let col = first + j;
                proof {
                    assert(col < src_w);
                }
                let idx: usize = src_row_base + (col * 4 + c);
                let cv = *vstd::slice::slice_index_get(sdata.as_slice(), idx);
                let k = *vstd::slice::slice_index_get(vals_ref.as_slice(), wbase + j);
                proof {
                    assert(win[j as int] == k);
                    assert(idx as int == base + (j as int) * 4);
                    assert(cv == src.spec_data()[base + (j as int) * 4]);
                    lemma_comp_weight_product_bound(cv as int, k as int);
                    lemma_dot_prefix_bound(src.spec_data(), base, 4, win, j as int);
                    lemma_dot_prefix_bound(src.spec_data(), base, 4, win, j + 1);
                    lemma_abs_sum_prefix_monotonic(win, j + 1, win.len() as int);
                }
                ss = ss + (cv as i32) * (k as i32);
                j = j + 1;
            }
            let out = coeffs.clip(ss);
            let ghost done = 4 * (dst_w as int) * (r as int) + (x as int);
            proof {
                vstd::arithmetic::mul::lemma_mul_is_commutative(r as int, 4 * (dst_w as int));
                lemma_fundamental_div_mod_converse(
                    done,
                    4 * (dst_w as int),
                    r as int,
                    x as int,
                );
                assert(out == g[done]);
            }
            ddata.set(row_base + x, out);
            x = x + 1;
        }
        r = r + 1;
    }
    proof {
        assert(ddata@.subrange(0, 4 * (dst_w as int) * (dst_h as int)) =~= g);
    }
}

/// Index arithmetic of one output row of the grid.
proof fn lemma_out_row_span(out_w: int, r: int, out_h: int) by (nonlinear_arith)
    requires
        0 <= out_w,
        0 <= r < out_h,
    ensures
        0 <= out_w * r * 4,
        out_w * r * 4 == 4 * out_w * r,
        out_w * r * 4 + 4 * out_w <= 4 * out_w * out_h,
        4 * out_w * (r + 1) == 4 * out_w * r + 4 * out_w,
        out_w * 4 == 4 * out_w,
{
}

/// The flat byte index of the start of source row `row`, and the room one
/// row leaves before the region end.
proof fn lemma_src_row_span(src_w: int, row: int, src_h: int) by (nonlinear_arith)
    requires
        0 <= src_w,
        0 <= row < src_h,
    ensures
        0 <= src_w * row * 4,
        src_w * row * 4 == 4 * src_w * row,
        src_w * row * 4 + 4 * src_w <= 4 * src_w * src_h,
{
}

} // verus!
