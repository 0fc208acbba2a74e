//! The vertical resampling pass.
//!
//! Each output row `y` blends `coeffs.bounds[y].size` consecutive source
//! rows, starting at `coeffs.bounds[y].start`, column by column: every
//! output byte component is the clipped, bias-seeded weighted sum of the
//! same component column of those source rows.

use crate::convolution::optimisations::{lemma_window_in_values, CoeffsModel, Normalizer16,
    MAX_WINDOW_ABS_SUM};
use crate::convolution::{abs_sum, conv_comp, dot_prefix, lemma_abs_sum_prefix_monotonic,
    lemma_abs_sum_prefix_nonneg, lemma_comp_weight_product_bound, lemma_dot_prefix_bound};
use crate::image_view::{ImageView, ImageViewMut};
use vstd::arithmetic::div_mod::lemma_fundamental_div_mod_converse;
use vstd::arithmetic::power2::{lemma2_to64, lemma_pow2_strictly_increases};
use vstd::bits::lemma_u32_shl_is_mul;
use vstd::pervasive::VecAdditionalExecFns;
use vstd::prelude::*;

verus! {

/// Output byte `i` of the vertical pass, in the layout of
/// [`vert_conv_grid`].
pub open spec fn vert_conv_at(
    src: Seq<u8>,
    src_w: int,
    offset: int,
    m: CoeffsModel,
    out_w: int,
    i: int,
) -> u8 {
    let y = i / (4 * out_w);
    let x = i % (4 * out_w);
    conv_comp(
        src,
        4 * src_w * (m.bounds[y].start as int) + 4 * offset + x,
        4 * src_w,
        m.window(y),
        m.precision,
    )
}

/// The whole output region of the vertical pass, rows back to back: output
/// row `y`, component column `x` weighs component `4*offset + x` of source
/// rows `m.bounds[y].start ..` with window `y`.
pub open spec fn vert_conv_grid(
    src: Seq<u8>,
    src_w: int,
    offset: int,
    m: CoeffsModel,
    out_w: int,
    out_h: int,
) -> Seq<u8> {
    Seq::new((4 * out_w * out_h) as nat, |i: int| vert_conv_at(src, src_w, offset, m, out_w, i))
}

/// Applies the vertical pass: every byte of `dst`'s image region becomes
/// the corresponding entry of [`vert_conv_grid`]; bytes past the region
/// keep their old value.
#[verifier::loop_isolation(false)]
pub fn vert_convolution(src: &ImageView, dst: &mut ImageViewMut, offset: u32, coeffs: &Normalizer16)
    requires
        src.wf(),
        old(dst).wf(),
        coeffs@.wf(),
        coeffs@.bounds.len() == old(dst).spec_height(),
        forall|i: int|
            0 <= i < coeffs@.bounds.len() ==> (#[trigger] coeffs@.bounds[i]).end()
                <= src.spec_height(),
        offset + old(dst).spec_width() <= src.spec_width(),
    ensures
        final(dst).spec_width() == old(dst).spec_width(),
        final(dst).spec_height() == old(dst).spec_height(),
        final(dst).spec_data().len() == old(dst).spec_data().len(),
        final(dst).spec_data().subrange(
            0,
            4 * old(dst).spec_width() * old(dst).spec_height(),
        ) == vert_conv_grid(
            src.spec_data(),
            src.spec_width(),
            offset as int,
            coeffs@,
            old(dst).spec_width(),
            old(dst).spec_height(),
        ),
        forall|t: int|
            4 * old(dst).spec_width() * old(dst).spec_height() <= t < old(
                dst,
            ).spec_data().len() ==> final(dst).spec_data()[t] == old(dst).spec_data()[t],
    {
    let src_w = src.width();
    let src_h = src.height();
    let dst_w = dst.width();
    let dst_h = dst.height();
    let off = offset as usize;
    let p = coeffs.precision();
    proof {
        lemma2_to64();
        lemma_pow2_strictly_increases((p - 1) as nat, 21);
        lemma_u32_shl_is_mul(1u32, (p - 1) as u32);
    }
    let bias_u: u32 = 1u32 << ((p - 1) as u32);
    let bias: i32 = bias_u as i32;
    let ws = coeffs.window_size();
    let bounds_ref = coeffs.bounds();
    let vals_ref = coeffs.values();
    let _n_vals = vals_ref.len();
    let sdata = src.data_ref();
    let _s_len = sdata.len();
    let ghost g = vert_conv_grid(
        src.spec_data(),
        src_w as int,
        offset as int,
        coeffs@,
        dst_w as int,
        dst_h as int,
    );
    let ddata = dst.data_mut();
    let d_len = ddata.len();
    let ghost d0 = ddata@;
    let mut y: usize = 0;
    while y < dst_h
        invariant
            y <= dst_h,
            ddata@.len() == d_len,
            forall|t: int| 0 <= t < 4 * dst_w * y ==> ddata@[t] == g[t],
            forall|t: int| 4 * dst_w * y <= t < d_len ==> ddata@[t] == d0[t],
        decreases dst_h - y,
    {
        proof {
            lemma_row_span(dst_w as int, y as int, dst_h as int);
        }
        let wcols: usize = dst_w * 4;
        let row_base: usize = dst_w * y * 4;
        let bnd = *vstd::slice::slice_index_get(bounds_ref.as_slice(), y);
        let first = bnd.start as usize;
        let sz = bnd.size as usize;
        proof {
            lemma_window_in_values(coeffs@, y as int);
        }
        let wbase: usize = ws * y;
        let ghost win = coeffs@.window(y as int);
        proof {
            assert(win.len() == sz);
            assert(abs_sum(win) <= MAX_WINDOW_ABS_SUM);
            lemma_abs_sum_prefix_nonneg(win, win.len() as int);
        }
        let mut x: usize = 0;
        while x < wcols
            invariant
                x <= wcols,
                ddata@.len() == d_len,
                forall|t: int| 0 <= t < 4 * dst_w * y + x ==> ddata@[t] == g[t],
                forall|t: int| 4 * dst_w * y + x <= t < d_len ==> ddata@[t] == d0[t],
            decreases wcols - x,
        {
            let ghost base = 4 * (src_w as int) * (first as int) + 4 * (off as int) + (x as int);
            let ghost step = 4 * (src_w as int);
            let mut ss: i32 = bias;
            let mut j: usize = 0;
            while j < sz
                invariant
                    j <= sz,
                    ss == bias + dot_prefix(src.spec_data(), base, step, win, j as int),
                    -255 * abs_sum(win) <= ss - bias <= 255 * abs_sum(win),
                decreases sz - j,
            {
                let row = first + j;
                proof {
                    assert(row < src_h);
                    lemma_src_index(
                        src_w as int,
                        src_h as int,
                        row as int,
                        off as int,
                        dst_w as int,
                        x as int,
                    );
                    lemma_step_index(src_w as int, first as int, j as int);
                }
                let idx: usize = src_w * row * 4 + (off * 4 + x);
                let c = *vstd::slice::slice_index_get(sdata.as_slice(), idx);
                let k = *vstd::slice::slice_index_get(vals_ref.as_slice(), wbase + j);
                proof {
                    assert(win[j as int] == k);
                    assert(idx as int == base + (j as int) * step);
                    assert(c == src.spec_data()[base + (j as int) * step]);
                    lemma_comp_weight_product_bound(c as int, k as int);
                    lemma_dot_prefix_bound(src.spec_data(), base, step, win, j as int);
                    lemma_dot_prefix_bound(src.spec_data(), base, step, win, j + 1);
                    lemma_abs_sum_prefix_monotonic(win, j + 1, win.len() as int);
                }
                ss = ss + (c as i32) * (k as i32);
                j = j + 1;
            }
            let out = coeffs.clip(ss);
            let ghost done = 4 * (dst_w as int) * (y as int) + (x as int);
            proof {
                vstd::arithmetic::mul::lemma_mul_is_commutative(y as int, 4 * (dst_w as int));
                lemma_fundamental_div_mod_converse(
                    done,
                    4 * (dst_w as int),
                    y as int,
                    x as int,
                );
                assert(out == g[done]);
            }
            ddata.set(row_base + x, out);
            x = x + 1;
        }
        y = y + 1;
    }
    proof {
        assert(ddata@.subrange(0, 4 * (dst_w as int) * (dst_h as int)) =~= g);
    }
}

/// Index arithmetic of one output row of the grid.
proof fn lemma_row_span(out_w: int, y: int, out_h: int) by (nonlinear_arith)
    requires
        0 <= out_w,
        0 <= y < out_h,
    ensures
        0 <= out_w * y * 4,
        out_w * y * 4 == 4 * out_w * y,
        out_w * y * 4 + 4 * out_w <= 4 * out_w * out_h,
        4 * out_w * (y + 1) == 4 * out_w * y + 4 * out_w,
        out_w * 4 == 4 * out_w,
{
}

/// A component of source row `row`, column `4*off + x`, lies inside the
/// source image region.
proof fn lemma_src_index(src_w: int, src_h: int, row: int, off: int, dst_w: int, x: int) by (nonlinear_arith)
    requires
        0 <= src_w,
        0 <= row < src_h,
        0 <= off,
        0 <= x < 4 * dst_w,
        off + dst_w <= src_w,
    ensures
        0 <= src_w * row * 4,
        src_w * row * 4 == 4 * src_w * row,
        off * 4 + x < 4 * src_w,
        src_w * row * 4 + (off * 4 + x) < 4 * src_w * src_h,
{
}

/// Walking one source row down moves the flat index by one row stride.
proof fn lemma_step_index(src_w: int, start: int, j: int) by (nonlinear_arith)
    ensures
        src_w * (start + j) * 4 == 4 * src_w * start + j * (4 * src_w),
{
}

} // verus!
