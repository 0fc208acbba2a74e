//! Views over flat buffers of 4-byte pixels.
//!
//! A view carries its extent and an owned copy of the pixel bytes it was
//! built from; rows live back to back in the flat buffer, row `y` occupying
//! bytes `4*width*y .. 4*width*(y+1)`.  A buffer longer than the extent
//! requires is accepted and the excess carried along untouched.

use crate::errors::{DifferentDimensionsError, ImageBufferError};
use crate::pixels::U8x4;
use vstd::pervasive::VecAdditionalExecFns;
use vstd::prelude::*;

verus! {

/// An immutable view of image data, used by the resizer as the source image.
#[derive(Debug, Clone)]
pub struct ImageView {
    width: usize,
    height: usize,
    data: Vec<u8>,
}

/// A mutable view of image data, used by the resizer as the destination image.
#[derive(Debug)]
pub struct ImageViewMut {
    width: usize,
    height: usize,
    data: Vec<u8>,
}

impl ImageView {
    /// Width of the view, in pixels.
    pub closed spec fn spec_width(&self) -> int {
        self.width as int
    }

    /// Height of the view, in pixels.
    pub closed spec fn spec_height(&self) -> int {
        self.height as int
    }

    /// The flat byte buffer behind the view.
    pub closed spec fn spec_data(&self) -> Seq<u8> {
        self.data@
    }

    /// The buffer holds at least the bytes the extent asks for.
    pub open spec fn wf(&self) -> bool {
        &&& 0 <= self.spec_width()
        &&& 0 <= self.spec_height()
        &&& 4 * self.spec_width() * self.spec_height() <= self.spec_data().len()
    }

    /// Builds a read view of the given extent over a copy of `buffer`.
    pub fn from_buffer(width: usize, height: usize, buffer: &[u8]) -> (r: Result<
        Self,
        ImageBufferError,
    >)
        ensures
            r is Ok <==> buffer@.len() >= 4 * width * height,
            r matches Ok(v) ==> {
                &&& v.wf()
                &&& v.spec_width() == width
                &&& v.spec_height() == height
                &&& v.spec_data() == buffer@
            },
            r matches Err(e) ==> e == ImageBufferError::InvalidBufferSize,
    {
        if !buffer_big_enough(width, height, buffer.len()) {
            return Err(ImageBufferError::InvalidBufferSize);
        }
        let data = vstd::slice::slice_to_vec(buffer);
        Ok(ImageView { width, height, data })
    }

    /// Width of the view, in pixels.
    pub fn width(&self) -> (r: usize)
        ensures
            r == self.spec_width(),
    {
        self.width
    }

    /// Height of the view, in pixels.
    pub fn height(&self) -> (r: usize)
        ensures
            r == self.spec_height(),
    {
        self.height
    }

    /// One row of pixel bytes, row `y` being bytes `4*width*y ..
    /// 4*width*(y+1)` of the buffer; an empty vector when `y` is out of
    /// range, not an error.
    pub fn get_row(&self, y: usize) -> (r: Vec<u8>)
        requires
            self.wf(),
        ensures
            y < self.spec_height() ==> r@ == self.spec_data().subrange(
                4 * self.spec_width() * y,
                4 * self.spec_width() * (y + 1),
            ),
            y >= self.spec_height() ==> r@ == Seq::<u8>::empty(),
    {
        if y >= self.height {
            return Vec::new();
        }
        let _buf_len: usize = self.data.len();
        proof {
            lemma_row_in_bounds(self.width as int, self.height as int, y as int);
        }
        let start: usize = self.width * y * 4;
        let end: usize = start + 4 * self.width;
        let row = vstd::slice::slice_to_vec(
            vstd::slice::slice_subrange(self.data.as_slice(), start, end),
        );
        proof {
            assert(row@ =~= self.spec_data().subrange(
                4 * self.spec_width() * y,
                4 * self.spec_width() * (y + 1),
            ));
        }
        row
    }

    /// Two contiguous rows starting at `start_y`, for consumers that take
    /// rows in pairs; `None` when fewer than two rows remain.
    pub fn get_2_rows(&self, start_y: usize) -> (r: Option<[Vec<u8>; 2]>)
        requires
            self.wf(),
        ensures
            r is Some <==> start_y + 2 <= self.spec_height(),
            r matches Some(rows) ==> forall|k: int|
                0 <= k < 2 ==> rows[k]@ == self.spec_data().subrange(
                    4 * self.spec_width() * (start_y + k),
                    4 * self.spec_width() * (start_y + k + 1),
                ),
    {
        if start_y >= self.height || self.height - start_y < 2 {
            return None;
        }
        let rows = [self.get_row(start_y), self.get_row(start_y + 1)];
        Some(rows)
    }

    /// Four contiguous rows starting at `start_y`, for consumers that take
    /// rows in quads; `None` when fewer than four rows remain.
    pub fn get_4_rows(&self, start_y: usize) -> (r: Option<[Vec<u8>; 4]>)
        requires
            self.wf(),
        ensures
            r is Some <==> start_y + 4 <= self.spec_height(),
            r matches Some(rows) ==> forall|k: int|
                0 <= k < 4 ==> rows[k]@ == self.spec_data().subrange(
                    4 * self.spec_width() * (start_y + k),
                    4 * self.spec_width() * (start_y + k + 1),
                ),
    {
        if start_y >= self.height || self.height - start_y < 4 {
            return None;
        }
        let rows = [
            self.get_row(start_y),
            self.get_row(start_y + 1),
            self.get_row(start_y + 2),
            self.get_row(start_y + 3),
        ];
        Some(rows)
    }

    /// Hands the backing buffer back, consuming the view.
    pub(crate) fn into_data(self) -> (r: Vec<u8>)
        ensures
            r@ == self.spec_data(),
    {
        let ImageView { width: _, height: _, data } = self;
        data
    }

    /// Read access to the backing buffer.
    pub(crate) fn data_ref(&self) -> (r: &Vec<u8>)
        ensures
            r@ == self.spec_data(),
    {
        &self.data
    }

    /// Builds a view of the given extent directly over an owned buffer.
    pub(crate) fn from_data(width: usize, height: usize, data: Vec<u8>) -> (r: Self)
        requires
            4 * width * height <= data@.len(),
        ensures
            r.wf(),
            r.spec_width() == width,
            r.spec_height() == height,
            r.spec_data() == data@,
    {
        ImageView { width, height, data }
    }
}

impl ImageViewMut {
    /// Width of the view, in pixels.
    pub closed spec fn spec_width(&self) -> int {
        self.width as int
    }

    /// Height of the view, in pixels.
    pub closed spec fn spec_height(&self) -> int {
        self.height as int
    }

    /// The flat byte buffer behind the view.
    pub closed spec fn spec_data(&self) -> Seq<u8> {
        self.data@
    }

    /// The buffer holds at least the bytes the extent asks for.
    pub open spec fn wf(&self) -> bool {
        &&& 0 <= self.spec_width()
        &&& 0 <= self.spec_height()
        &&& 4 * self.spec_width() * self.spec_height() <= self.spec_data().len()
    }

    /// Builds a write view of the given extent over a copy of `buffer`.
    pub fn from_buffer(width: usize, height: usize, buffer: &[u8]) -> (r: Result<
        Self,
        ImageBufferError,
    >)
        ensures
            r is Ok <==> buffer@.len() >= 4 * width * height,
            r matches Ok(v) ==> {
                &&& v.wf()
                &&& v.spec_width() == width
                &&& v.spec_height() == height
                &&& v.spec_data() == buffer@
            },
            r matches Err(e) ==> e == ImageBufferError::InvalidBufferSize,
    {
        if !buffer_big_enough(width, height, buffer.len()) {
            return Err(ImageBufferError::InvalidBufferSize);
        }
        let data = vstd::slice::slice_to_vec(buffer);
        Ok(ImageViewMut { width, height, data })
    }

    /// Builds a write view of the given extent over a copy of the typed
    /// pixel sequence, laid out as flat bytes.
    pub fn from_pixels(width: usize, height: usize, pixels: &[U8x4]) -> (r: Result<
        Self,
        ImageBufferError,
    >)
        ensures
            r is Ok <==> pixels@.len() >= width * height,
            r matches Ok(v) ==> {
                &&& v.wf()
                &&& v.spec_width() == width
                &&& v.spec_height() == height
                &&& v.spec_data().len() == 4 * pixels@.len()
                &&& forall|i: int, c: int|
                    0 <= i < pixels@.len() && 0 <= c < 4 ==> v.spec_data()[4 * i + c]
                        == pixels@[i].0[c]
            },
            r matches Err(e) ==> e == ImageBufferError::InvalidBufferSize,
    {
        let count = pixels.len();
        let need = match width.checked_mul(height) {
            Some(n) => n,
            None => {
                return Err(ImageBufferError::InvalidBufferSize);
            },
        };
        if count < need {
            return Err(ImageBufferError::InvalidBufferSize);
        }
        let mut data: Vec<u8> = Vec::new();
        let mut i: usize = 0;
        while i < count
            invariant
                i <= count,
                count == pixels@.len(),
                data@.len() == 4 * i,
                forall|k: int, c: int|
                    0 <= k < i && 0 <= c < 4 ==> data@[4 * k + c] == pixels@[k].0[c],
            decreases count - i,
        {
            let p = pixels[i];
            data.push(p.0[0]);
            data.push(p.0[1]);
            data.push(p.0[2]);
            data.push(p.0[3]);
            i = i + 1;
        }
        proof {
            assert(4 * (width * height) <= 4 * count) by (nonlinear_arith)
                requires
                    width * height <= count,
            ;
            assert(4 * (width as int) * (height as int) == 4 * ((width as int) * (
            height as int))) by (nonlinear_arith);
        }
        Ok(ImageViewMut { width, height, data })
    }

    /// Width of the view, in pixels.
    pub fn width(&self) -> (r: usize)
        ensures
            r == self.spec_width(),
    {
        self.width
    }

    /// Height of the view, in pixels.
    pub fn height(&self) -> (r: usize)
        ensures
            r == self.spec_height(),
    {
        self.height
    }

    /// Copies the source view's rows into this view row by row; the extents
    /// must agree, and bytes past the image region are left as they were.
    pub fn copy_from_view(&mut self, src: &ImageView) -> (r: Result<
        (),
        DifferentDimensionsError,
    >)
        requires
            old(self).wf(),
            src.wf(),
        ensures
            final(self).wf(),
            final(self).spec_width() == old(self).spec_width(),
            final(self).spec_height() == old(self).spec_height(),
            final(self).spec_data().len() == old(self).spec_data().len(),
            r is Ok <==> (src.spec_width() == old(self).spec_width() && src.spec_height() == old(self).spec_height()),
            r is Ok ==> {
                &&& forall|i: int|
                    0 <= i < 4 * old(self).spec_width() * old(self).spec_height() ==> final(self).spec_data()[i] == src.spec_data()[i]
                &&& forall|i: int|
                    4 * old(self).spec_width() * old(self).spec_height() <= i < old(self).spec_data().len() ==> final(self).spec_data()[i] == old(self).spec_data()[i]
            },
            r is Err ==> final(self).spec_data() == old(self).spec_data(),
    {
        if src.width() != self.width || src.height() != self.height {
            return Err(DifferentDimensionsError);
        }
        let _buf_len: usize = self.data.len();
        proof {
            lemma_region_in_bounds(self.width as int, self.height as int);
        }
        let total: usize = self.width * self.height * 4;
        let mut i: usize = 0;
        while i < total
            invariant
                i <= total,
                total == 4 * self.spec_width() * self.spec_height(),
                self.wf(),
                src.wf(),
                self.spec_width() == old(self).spec_width(),
                self.spec_height() == old(self).spec_height(),
                src.spec_width() == self.spec_width(),
                src.spec_height() == self.spec_height(),
                self.spec_data().len() == old(self).spec_data().len(),
                total <= src.spec_data().len(),
                total <= self.spec_data().len(),
                forall|k: int| 0 <= k < i ==> self.spec_data()[k] == src.spec_data()[k],
                forall|k: int|
                    i <= k < self.spec_data().len() ==> self.spec_data()[k] == old(self).spec_data()[k],
            decreases total - i,
        {
            let b = *vstd::slice::slice_index_get(src.data.as_slice(), i);
            self.data.set(i, b);
            i = i + 1;
        }
        Ok(())
    }

    /// Hands the backing buffer back, consuming the view.
    pub(crate) fn into_data(self) -> (r: Vec<u8>)
        ensures
            r@ == self.spec_data(),
    {
        let ImageViewMut { width: _, height: _, data } = self;
        data
    }

    /// Read access to the backing buffer.
    pub(crate) fn data_ref(&self) -> (r: &Vec<u8>)
        ensures
            r@ == self.spec_data(),
    {
        &self.data
    }

    /// Write access to the backing buffer; the extent stays as it is.
    pub(crate) fn data_mut(&mut self) -> (r: &mut Vec<u8>)
        ensures
            (*r)@ == old(self).spec_data(),
            final(self).spec_data() == (*final(r))@,
            final(self).spec_width() == old(self).spec_width(),
            final(self).spec_height() == old(self).spec_height(),
    {
        &mut self.data
    }

    /// The read view this write view turns into, consuming it.
    pub(crate) fn into_read(self) -> (r: ImageView)
        ensures
            r == read_view_of(self),
            r.spec_width() == self.spec_width(),
            r.spec_height() == self.spec_height(),
            r.spec_data() == self.spec_data(),
    {
        ImageView { width: self.width, height: self.height, data: self.data }
    }

    /// Builds a view of the given extent directly over an owned buffer; the
    /// resizer uses this for its intermediate image.
    pub(crate) fn from_data(width: usize, height: usize, data: Vec<u8>) -> (r: Self)
        requires
            4 * width * height <= data@.len(),
        ensures
            r.wf(),
            r.spec_width() == width,
            r.spec_height() == height,
            r.spec_data() == data@,
    {
        ImageViewMut { width, height, data }
    }
}

/// The read view that a consumed write view turns into: the same extent
/// over the same buffer.
pub closed spec fn read_view_of(view: ImageViewMut) -> ImageView {
    ImageView { width: view.width, height: view.height, data: view.data }
}

/// Converting a write view into a read view consumes it, so no live write
/// alias survives the conversion.
impl From<ImageViewMut> for ImageView {
    fn from(view: ImageViewMut) -> (r: ImageView)
        ensures
            r.spec_width() == view.spec_width(),
            r.spec_height() == view.spec_height(),
            r.spec_data() == view.spec_data(),
    {
        ImageView { width: view.width, height: view.height, data: view.data }
    }
}

impl vstd::std_specs::convert::FromSpecImpl<ImageViewMut> for ImageView {
    open spec fn obeys_from_spec() -> bool {
        true
    }

    closed spec fn from_spec(view: ImageViewMut) -> ImageView {
        read_view_of(view)
    }
}

/// `width * height * 4` bytes fit the buffer; computed without overflow.
fn buffer_big_enough(width: usize, height: usize, len: usize) -> (r: bool)
    ensures
        r <==> len >= 4 * width * height,
{
    let pixels = match width.checked_mul(height) {
        Some(n) => n,
        None => {
            proof {
                assert(4 * (width as int) * (height as int) >= (width as int) * (
                height as int)) by (nonlinear_arith);
            }
            return false;
        },
    };
    match pixels.checked_mul(4) {
        Some(need) => {
            proof {
                assert((width as int) * (height as int) * 4 == 4 * (width as int) * (
                height as int)) by (nonlinear_arith);
            }
            len >= need
        },
        None => {
            proof {
                assert((width as int) * (height as int) * 4 == 4 * (width as int) * (
                height as int)) by (nonlinear_arith);
            }
            false
        },
    }
}

/// Row `y` of a `width`-by-`height` image lies within the image region.
proof fn lemma_row_in_bounds(width: int, height: int, y: int) by (nonlinear_arith)
    requires
        0 <= width,
        0 <= y < height,
    ensures
        0 <= width * y,
        width * y <= width * y * 4,
        width * y * 4 == 4 * width * y,
        width * y * 4 + 4 * width <= 4 * width * height,
        4 * width * (y + 1) == 4 * width * y + 4 * width,
{
}

/// The image region is `4 * width * height` bytes.
proof fn lemma_region_in_bounds(width: int, height: int) by (nonlinear_arith)
    requires
        0 <= width,
        0 <= height,
    ensures
        0 <= width * height,
        width * height <= width * height * 4,
        width * height * 4 == 4 * width * height,
{
}

} // verus!
