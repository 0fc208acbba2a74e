//! An owned container of image data.

use crate::dynamic_image_view::{DynamicImageView, DynamicImageViewMut};
use crate::errors::ImageBufferError;
use crate::image_view::{ImageView, ImageViewMut};
use crate::pixels::PixelType;
use vstd::prelude::*;

verus! {

/// Simple container of image data: an extent, a pixel format and the owned
/// flat byte buffer behind them.
#[derive(Debug)]
pub struct Image {
    width: usize,
    height: usize,
    buffer: Vec<u8>,
    pixel_type: PixelType,
}

impl Image {
    /// Width of the image, in pixels.
    pub closed spec fn spec_width(&self) -> int {
        self.width as int
    }

    /// Height of the image, in pixels.
    pub closed spec fn spec_height(&self) -> int {
        self.height as int
    }

    /// The flat byte buffer of the image.
    pub closed spec fn spec_buffer(&self) -> Seq<u8> {
        self.buffer@
    }

    /// The pixel format of the image.
    pub closed spec fn spec_pixel_type(&self) -> PixelType {
        self.pixel_type
    }

    /// The buffer holds at least the bytes the extent asks for.
    pub open spec fn wf(&self) -> bool {
        &&& 0 <= self.spec_width()
        &&& 0 <= self.spec_height()
        &&& 4 * self.spec_width() * self.spec_height() <= self.spec_buffer().len()
    }

    /// Creates an empty (all-zero) image of the given extent and format.
    pub fn new(width: usize, height: usize, pixel_type: PixelType) -> (r: Self)
        requires
            width * height * 4 <= usize::MAX,
        ensures
            r.wf(),
            r.spec_width() == width,
            r.spec_height() == height,
            r.spec_pixel_type() == pixel_type,
            r.spec_buffer().len() == 4 * width * height,
            forall|i: int| 0 <= i < r.spec_buffer().len() ==> r.spec_buffer()[i] == 0u8,
    {
        proof {
            lemma_buffer_size(width as int, height as int);
        }
        let size: usize = width * height * 4;
        let mut buffer: Vec<u8> = Vec::new();
        while buffer.len() < size
            invariant
                buffer@.len() <= size,
                forall|i: int| 0 <= i < buffer@.len() ==> buffer@[i] == 0u8,
            decreases size - buffer@.len(),
        {
            buffer.push(0);
        }
        Image { width, height, buffer, pixel_type }
    }

    /// Wraps a caller's byte buffer of the given extent and format; fails
    /// with `InvalidBufferSize` when the buffer is too short.
    pub fn from_vec_u8(width: usize, height: usize, buffer: Vec<u8>, pixel_type: PixelType) -> (r:
        Result<Self, ImageBufferError>)
        ensures
            r is Ok <==> buffer@.len() >= 4 * width * height,
            r matches Ok(img) ==> {
                &&& img.wf()
                &&& img.spec_width() == width
                &&& img.spec_height() == height
                &&& img.spec_pixel_type() == pixel_type
                &&& img.spec_buffer() == buffer@
            },
            r matches Err(e) ==> e == ImageBufferError::InvalidBufferSize,
    {
        let buf_len = buffer.len();
        let size = match width.checked_mul(height) {
            Some(n) => match n.checked_mul(4) {
                Some(s) => s,
                None => {
                    proof {
                        lemma_size_assoc(width as int, height as int);
                    }
                    return Err(ImageBufferError::InvalidBufferSize);
                },
            },
            None => {
                proof {
                    lemma_size_assoc(width as int, height as int);
                }
                return Err(ImageBufferError::InvalidBufferSize);
            },
        };
        proof {
            lemma_size_assoc(width as int, height as int);
        }
        if buf_len < size {
            return Err(ImageBufferError::InvalidBufferSize);
        }
        Ok(Image { width, height, buffer, pixel_type })
    }

    /// The image's pixel bytes.
    pub fn buffer(&self) -> (r: &[u8])
        ensures
            r@ == self.spec_buffer(),
    {
        self.buffer.as_slice()
    }

    /// Write access to the image's pixel bytes.
    pub fn buffer_mut(&mut self) -> (r: &mut Vec<u8>)
        ensures
            (*r)@ == old(self).spec_buffer(),
            final(self).spec_buffer() == (*final(r))@,
            final(self).spec_width() == old(self).spec_width(),
            final(self).spec_height() == old(self).spec_height(),
            final(self).spec_pixel_type() == old(self).spec_pixel_type(),
    {
        &mut self.buffer
    }

    /// A read view of the image; it carries a copy of the pixel bytes.
    pub fn view(&self) -> (r: DynamicImageView)
        requires
            self.wf(),
        ensures
            r.spec_inner().wf(),
            r.spec_inner().spec_width() == self.spec_width(),
            r.spec_inner().spec_height() == self.spec_height(),
            r.spec_inner().spec_data() == self.spec_buffer(),
    {
        match self.pixel_type {
            PixelType::U8x4 => DynamicImageView::U8x4(
                ImageView::from_data(
                    self.width,
                    self.height,
                    vstd::slice::slice_to_vec(self.buffer.as_slice()),
                ),
            ),
        }
    }

    /// A write view of the image; it carries a copy of the pixel bytes, so
    /// results are read back from the view, not from this image.
    pub fn view_mut(&mut self) -> (r: DynamicImageViewMut)
        requires
            old(self).wf(),
        ensures
            *final(self) == *old(self),
            r.spec_inner().wf(),
            r.spec_inner().spec_width() == old(self).spec_width(),
            r.spec_inner().spec_height() == old(self).spec_height(),
            r.spec_inner().spec_data() == old(self).spec_buffer(),
    {
        match self.pixel_type {
            PixelType::U8x4 => DynamicImageViewMut::U8x4(
                ImageViewMut::from_data(
                    self.width,
                    self.height,
                    vstd::slice::slice_to_vec(self.buffer.as_slice()),
                ),
            ),
        }
    }
}

/// `width * height * 4` in the association the buffer-size checks use.
proof fn lemma_size_assoc(width: int, height: int) by (nonlinear_arith)
    requires
        0 <= width,
        0 <= height,
    ensures
        0 <= width * height,
        width * height <= width * height * 4,
        width * height * 4 == 4 * width * height,
{
}

/// The buffer size fits when the pixel count times four does.
proof fn lemma_buffer_size(width: int, height: int) by (nonlinear_arith)
    requires
        0 <= width,
        0 <= height,
    ensures
        0 <= width * height,
        0 <= width * height * 4,
        width * height <= width * height * 4,
        width * height * 4 == 4 * width * height,
{
}

} // verus!
