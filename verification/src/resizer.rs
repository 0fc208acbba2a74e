//! The resize orchestrator.
//!
//! A resize needs a pass per axis whose extent changes.  When both axes
//! change, the vertical bounds name the contiguous span of source rows the
//! vertical pass will ever read; the horizontal pass resamples exactly that
//! span into an intermediate image, the vertical bounds are shifted so that
//! intermediate row zero stands for the first spanned source row, and the
//! vertical pass finishes into the destination.  When neither axis changes,
//! the source is copied through unchanged.

use crate::convolution::filters::FilterType;
use crate::convolution::optimisations::{CoeffsModel, Normalizer16};
use crate::convolution::u8x4::{horiz_conv_grid, horiz_convolution};
use crate::convolution::vertical_u8::{vert_conv_grid, vert_convolution};
use crate::dynamic_image_view::{DynamicImageView, DynamicImageViewMut};
use crate::errors::DifferentTypesOfPixelsError;
use crate::image_view::{ImageView, ImageViewMut};
use vstd::prelude::*;

verus! {

/// Which vectorized execution path the convolution takes.  Only the scalar
/// path exists on this target; the scalar algorithm defines correctness for
/// every vectorized path, so dispatch falls through to it.
#[derive(Debug, Clone, Copy, PartialEq, Eq, Structural)]
pub enum CpuExtensions {
    Scalar,
}

impl Default for CpuExtensions {
    fn default() -> (r: Self)
        ensures
            r == CpuExtensions::Scalar,
    {
        CpuExtensions::Scalar
    }
}

/// How the resizer computes output pixels.
#[derive(Debug, Clone, Copy)]
#[non_exhaustive]
pub enum ResizeAlg {
    Convolution(FilterType),
}

impl Default for ResizeAlg {
    fn default() -> (r: Self)
        ensures
            r == ResizeAlg::Convolution(FilterType::CatmullRom),
    {
        ResizeAlg::Convolution(FilterType::CatmullRom)
    }
}

/// Methods of this structure used to resize images.
#[derive(Debug)]
pub struct Resizer {
    pub algorithm: ResizeAlg,
    cpu_extensions: CpuExtensions,
    convolution_buffer: Vec<u8>,
}

/// The models of optionally supplied quantized coefficients.
pub open spec fn model_of(c: Option<Normalizer16>) -> Option<CoeffsModel> {
    match c {
        Some(n) => Some(n@),
        None => None,
    }
}

/// The coefficients fit one axis of a resize: one bound per output
/// coordinate, every bound within the source extent.
pub open spec fn coeffs_valid(m: CoeffsModel, out_extent: int, src_extent: int) -> bool {
    &&& m.wf()
    &&& m.bounds.len() == out_extent
    &&& forall|i: int| 0 <= i < m.bounds.len() ==> (#[trigger] m.bounds[i]).end() <= src_extent
}

/// First source row the vertical bounds reference.
pub open spec fn vert_span_start(m: CoeffsModel) -> int {
    m.bounds[0].start as int
}

/// One past the last source row the vertical bounds reference.
pub open spec fn vert_span_end(m: CoeffsModel) -> int {
    m.bounds[m.bounds.len() - 1].end()
}

/// Everything a resample between these views with these coefficients
/// relies on: well-formed views of positive extent, a coefficient set
/// exactly for each axis whose extent changes, and an intermediate image
/// that fits the address space when both axes change.
pub open spec fn resample_requires(
    src: ImageView,
    dst: ImageViewMut,
    horiz: Option<CoeffsModel>,
    vert: Option<CoeffsModel>,
) -> bool {
    &&& src.wf()
    &&& dst.wf()
    &&& 1 <= src.spec_width() && 1 <= src.spec_height()
    &&& 1 <= dst.spec_width() && 1 <= dst.spec_height()
    &&& (horiz is Some <==> dst.spec_width() != src.spec_width())
    &&& (vert is Some <==> dst.spec_height() != src.spec_height())
    &&& (horiz matches Some(h) ==> coeffs_valid(h, dst.spec_width(), src.spec_width()))
    &&& (vert matches Some(v) ==> coeffs_valid(v, dst.spec_height(), src.spec_height()))
    &&& ((horiz is Some && vert is Some) ==> 4 * dst.spec_width() * (vert_span_end(
        vert->Some_0,
    ) - vert_span_start(vert->Some_0)) <= usize::MAX)
}

/// What a resample writes into the destination's image region, for each
/// combination of axes that need resampling.
pub open spec fn resample_spec(
    src: Seq<u8>,
    src_w: int,
    dst_w: int,
    dst_h: int,
    horiz: Option<CoeffsModel>,
    vert: Option<CoeffsModel>,
) -> Seq<u8> {
    match (horiz, vert) {
        (Some(h), Some(v)) => {
            let y_first = vert_span_start(v);
            let temp_h = vert_span_end(v) - y_first;
            vert_conv_grid(
                horiz_conv_grid(src, src_w, y_first, h, dst_w, temp_h),
                dst_w,
                0,
                v.shifted(y_first),
                dst_w,
                dst_h,
            )
        },
        (Some(h), None) => horiz_conv_grid(src, src_w, 0, h, dst_w, dst_h),
        (None, Some(v)) => vert_conv_grid(src, src_w, 0, v, dst_w, dst_h),
        (None, None) => src.subrange(0, 4 * dst_w * dst_h),
    }
}

/// For every accepted coefficient set of an axis, the bounds cover the
/// output extent one to one, and each bound keeps to the source extent:
/// `0 <= start` and `start + size <= src_extent`.
pub proof fn lemma_bounds_cover_axis(m: CoeffsModel, out_extent: int, src_extent: int)
    requires
        coeffs_valid(m, out_extent, src_extent),
    ensures
        m.bounds.len() == out_extent,
        forall|i: int|
            0 <= i < m.bounds.len() ==> 0 <= (#[trigger] m.bounds[i]).start && m.bounds[i].start
                + m.bounds[i].size <= src_extent,
{
}

/// A resample that needs no pass on either axis leaves the image region
/// bit-identical to the source.
pub proof fn lemma_identity_resample(src: Seq<u8>, src_w: int, dst_w: int, dst_h: int)
    ensures
        resample_spec(src, src_w, dst_w, dst_h, None, None) == src.subrange(
            0,
            4 * dst_w * dst_h,
        ),
{
}

impl Resizer {
    /// The algorithm the resizer runs.
    pub closed spec fn spec_algorithm(&self) -> ResizeAlg {
        self.algorithm
    }

    /// Creates an instance of `Resizer` with the given algorithm, running
    /// on the scalar path.
    pub fn new(algorithm: ResizeAlg) -> (r: Self)
        ensures
            r.spec_algorithm() == algorithm,
    {
        Resizer {
            algorithm,
            cpu_extensions: CpuExtensions::Scalar,
            convolution_buffer: Vec::new(),
        }
    }

    /// Resizes the source view into the destination view's pixel buffer.
    ///
    /// The quantized coefficient windows are supplied per axis, exactly for
    /// the axes whose extent changes.  The destination's image region
    /// becomes [`resample_spec`] of the source; when no axis changes, that
    /// is a plain copy of the source region.  This method doesn't multiply
    /// the source image or divide the destination image by the alpha
    /// channel.
    pub fn resize(
        &mut self,
        src_image: &DynamicImageView,
        dst_image: &mut DynamicImageViewMut,
        horiz_coeffs: Option<Normalizer16>,
        vert_coeffs: Option<Normalizer16>,
    ) -> (r: Result<(), DifferentTypesOfPixelsError>)
        requires
            resample_requires(
                src_image.spec_inner(),
                old(dst_image).spec_inner(),
                model_of(horiz_coeffs),
                model_of(vert_coeffs),
            ),
        ensures
            r is Ok,
            final(self).spec_algorithm() == old(self).spec_algorithm(),
            final(dst_image).spec_inner().spec_width() == old(
                dst_image,
            ).spec_inner().spec_width(),
            final(dst_image).spec_inner().spec_height() == old(
                dst_image,
            ).spec_inner().spec_height(),
            final(dst_image).spec_inner().spec_data().len() == old(
                dst_image,
            ).spec_inner().spec_data().len(),
            final(dst_image).spec_inner().spec_data().subrange(
                0,
                4 * old(dst_image).spec_inner().spec_width() * old(
                    dst_image,
                ).spec_inner().spec_height(),
            ) == resample_spec(
                src_image.spec_inner().spec_data(),
                src_image.spec_inner().spec_width(),
                old(dst_image).spec_inner().spec_width(),
                old(dst_image).spec_inner().spec_height(),
                model_of(horiz_coeffs),
                model_of(vert_coeffs),
            ),
            forall|t: int|
                4 * old(dst_image).spec_inner().spec_width() * old(
                    dst_image,
                ).spec_inner().spec_height() <= t < old(
                    dst_image,
                ).spec_inner().spec_data().len() ==> final(dst_image).spec_inner().spec_data()[t]
                    == old(dst_image).spec_inner().spec_data()[t],
    {
        match (src_image, dst_image) {
            (DynamicImageView::U8x4(src), DynamicImageViewMut::U8x4(dst)) => {
                self.resize_inner(src, dst, horiz_coeffs, vert_coeffs);
            },
        }
        Ok(())
    }

    /// Dispatches on the algorithm and execution path; only convolution on
    /// the scalar path exists.
    fn resize_inner(
        &mut self,
        src: &ImageView,
        dst: &mut ImageViewMut,
        horiz_coeffs: Option<Normalizer16>,
        vert_coeffs: Option<Normalizer16>,
    )
        requires
            resample_requires(*src, *old(dst), model_of(horiz_coeffs), model_of(vert_coeffs)),
        ensures
            final(self).spec_algorithm() == old(self).spec_algorithm(),
            final(dst).spec_width() == old(dst).spec_width(),
            final(dst).spec_height() == old(dst).spec_height(),
            final(dst).spec_data().len() == old(dst).spec_data().len(),
            final(dst).spec_data().subrange(
                0,
                4 * old(dst).spec_width() * old(dst).spec_height(),
            ) == resample_spec(
                src.spec_data(),
                src.spec_width(),
                old(dst).spec_width(),
                old(dst).spec_height(),
                model_of(horiz_coeffs),
                model_of(vert_coeffs),
            ),
            forall|t: int|
                4 * old(dst).spec_width() * old(dst).spec_height() <= t < old(
                    dst,
                ).spec_data().len() ==> final(dst).spec_data()[t] == old(dst).spec_data()[t],
    {
        match self.algorithm {
            ResizeAlg::Convolution(_filter_type) => {
                match self.cpu_extensions {
                    CpuExtensions::Scalar => {
                        resample_convolution(
                            src,
                            dst,
                            horiz_coeffs,
                            vert_coeffs,
                            &mut self.convolution_buffer,
                        );
                    },
                }
            },
        }
    }
}

/// Runs the one- or two-pass convolution between the views, reusing
/// `temp_buffer` as backing storage for the intermediate image.
#[verifier::loop_isolation(false)]
pub fn resample_convolution(
    src: &ImageView,
    dst: &mut ImageViewMut,
    horiz_coeffs: Option<Normalizer16>,
    vert_coeffs: Option<Normalizer16>,
    temp_buffer: &mut Vec<u8>,
)
    requires
        resample_requires(*src, *old(dst), model_of(horiz_coeffs), model_of(vert_coeffs)),
    ensures
        final(dst).spec_width() == old(dst).spec_width(),
        final(dst).spec_height() == old(dst).spec_height(),
        final(dst).spec_data().len() == old(dst).spec_data().len(),
        final(dst).spec_data().subrange(
            0,
            4 * old(dst).spec_width() * old(dst).spec_height(),
        ) == resample_spec(
            src.spec_data(),
            src.spec_width(),
            old(dst).spec_width(),
            old(dst).spec_height(),
            model_of(horiz_coeffs),
            model_of(vert_coeffs),
        ),
        forall|t: int|
            4 * old(dst).spec_width() * old(dst).spec_height() <= t < old(
                dst,
            ).spec_data().len() ==> final(dst).spec_data()[t] == old(dst).spec_data()[t],
{
    let _src_w = src.width();
    let _src_h = src.height();
    let dst_w = dst.width();
    let dst_h = dst.height();
    match (horiz_coeffs, vert_coeffs) {
        (Some(h), Some(mut v)) => {
            let ghost vm = v@;
            let ghost hm = h@;
            proof {
                assert forall|i: int| 0 <= i < vm.bounds.len() implies vm.bounds[0].start <= (
                #[trigger] vm.bounds[i]).start && vm.bounds[i].end() <= vm.bounds[vm.bounds.len()
                    - 1].end() by {
                    assert(vm.bounds[0].start <= vm.bounds[i].start && vm.bounds[0].end()
                        <= vm.bounds[i].end());
                    assert(vm.bounds[i].start <= vm.bounds[vm.bounds.len() - 1].start
                        && vm.bounds[i].end() <= vm.bounds[vm.bounds.len() - 1].end());
                }
            }
            let vb = v.bounds();
            let b0 = *vstd::slice::slice_index_get(vb.as_slice(), 0);
            let n_bounds = vb.len();
            let blast = *vstd::slice::slice_index_get(vb.as_slice(), n_bounds - 1);
            let y_first_u32 = b0.start;
            let y_first = y_first_u32 as usize;
            let y_last = blast.start as usize + blast.size as usize;
            let temp_h = y_last - y_first;
            proof {
                lemma_temp_assoc(dst_w as int, temp_h as int);
            }
            let need = dst_w * temp_h * 4;
            prepare_buffer(temp_buffer, need);
            let mut buf: Vec<u8> = Vec::new();
            core::mem::swap(&mut buf, temp_buffer);
            let mut tmp_view = ImageViewMut::from_data(dst_w, temp_h, buf);
            horiz_convolution(src, &mut tmp_view, y_first_u32, &h);
            let tmp_read = tmp_view.into_read();
            v.shift_bounds(y_first_u32);
            vert_convolution(&tmp_read, dst, 0, &v);
            let mut done_buf = tmp_read.into_data();
            core::mem::swap(temp_buffer, &mut done_buf);
            proof {
                assert(model_of(horiz_coeffs) == Some(hm));
                assert(model_of(vert_coeffs) == Some(vm));
                assert(y_first as int == vert_span_start(vm));
                assert(temp_h as int == vert_span_end(vm) - vert_span_start(vm));
                assert(v@ == vm.shifted(y_first as int));
                assert(tmp_read.spec_data() =~= horiz_conv_grid(
                    src.spec_data(),
                    src.spec_width(),
                    y_first as int,
                    hm,
                    dst_w as int,
                    temp_h as int,
                ));
                assert(dst.spec_data().subrange(
                    0,
                    4 * (dst_w as int) * (dst_h as int),
                ) == vert_conv_grid(
                    tmp_read.spec_data(),
                    dst_w as int,
                    0,
                    v@,
                    dst_w as int,
                    dst_h as int,
                ));
                assert(dst.spec_data().subrange(
                    0,
                    4 * (dst_w as int) * (dst_h as int),
                ) == resample_spec(
                    src.spec_data(),
                    src.spec_width(),
                    dst_w as int,
                    dst_h as int,
                    model_of(horiz_coeffs),
                    model_of(vert_coeffs),
                ));
            }
        },
        (Some(h), None) => {
            horiz_convolution(src, dst, 0, &h);
        },
        (None, Some(v)) => {
            vert_convolution(src, dst, 0, &v);
        },
        (None, None) => {
            let copied = dst.copy_from_view(src);
            match copied {
                Ok(_) => {},
                Err(_) => {
                    proof {
                        assert(false);
                    }
                },
            }
            proof {
                assert(dst.spec_data().subrange(
                    0,
                    4 * (dst_w as int) * (dst_h as int),
                ) =~= src.spec_data().subrange(0, 4 * (dst_w as int) * (dst_h as int)));
            }
        },
    }
}

/// Re-derives the intermediate buffer at exactly the needed size; its
/// allocation is reused from call to call.
fn prepare_buffer(buffer: &mut Vec<u8>, need: usize)
    ensures
        final(buffer)@.len() == need,
{
    buffer.truncate(need);
    while buffer.len() < need
        invariant
            buffer@.len() <= need,
        decreases need - buffer@.len(),
    {
        buffer.push(0);
    }
}

/// `dst_w * temp_h * 4` in the association the buffer-size checks use.
proof fn lemma_temp_assoc(w: int, h: int) by (nonlinear_arith)
    requires
        0 <= w,
        0 <= h,
    ensures
        0 <= w * h,
        w * h <= w * h * 4,
        w * h * 4 == 4 * w * h,
{
}

} // verus!
