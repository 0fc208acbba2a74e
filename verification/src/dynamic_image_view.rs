//! Views tagged with their pixel format.

use crate::image_view::{ImageView, ImageViewMut};
use vstd::prelude::*;

verus! {

/// An immutable view of image data used by the resizer as source image.
#[derive(Debug, Clone)]
#[non_exhaustive]
pub enum DynamicImageView {
    U8x4(ImageView),
}

/// A mutable view of image data used by the resizer as destination image.
#[derive(Debug)]
#[non_exhaustive]
pub enum DynamicImageViewMut {
    U8x4(ImageViewMut),
}

impl DynamicImageView {
    /// The typed view inside.
    pub open spec fn spec_inner(&self) -> ImageView {
        match self {
            DynamicImageView::U8x4(v) => *v,
        }
    }

    /// Width of the view, in pixels.
    pub fn width(&self) -> (r: usize)
        ensures
            r == self.spec_inner().spec_width(),
    {
        match self {
            DynamicImageView::U8x4(v) => v.width(),
        }
    }

    /// Height of the view, in pixels.
    pub fn height(&self) -> (r: usize)
        ensures
            r == self.spec_inner().spec_height(),
    {
        match self {
            DynamicImageView::U8x4(v) => v.height(),
        }
    }
}

impl DynamicImageViewMut {
    /// The typed view inside.
    pub open spec fn spec_inner(&self) -> ImageViewMut {
        match self {
            DynamicImageViewMut::U8x4(v) => *v,
        }
    }

    /// Width of the view, in pixels.
    pub fn width(&self) -> (r: usize)
        ensures
            r == self.spec_inner().spec_width(),
    {
        match self {
            DynamicImageViewMut::U8x4(v) => v.width(),
        }
    }

    /// Height of the view, in pixels.
    pub fn height(&self) -> (r: usize)
        ensures
            r == self.spec_inner().spec_height(),
    {
        match self {
            DynamicImageViewMut::U8x4(v) => v.height(),
        }
    }
}

impl From<ImageView> for DynamicImageView {
    fn from(view: ImageView) -> (r: DynamicImageView) {
        DynamicImageView::U8x4(view)
    }
}

impl vstd::std_specs::convert::FromSpecImpl<ImageView> for DynamicImageView {
    open spec fn obeys_from_spec() -> bool {
        true
    }

    open spec fn from_spec(view: ImageView) -> DynamicImageView {
        DynamicImageView::U8x4(view)
    }
}

impl From<ImageViewMut> for DynamicImageViewMut {
    fn from(view: ImageViewMut) -> (r: DynamicImageViewMut) {
        DynamicImageViewMut::U8x4(view)
    }
}

impl vstd::std_specs::convert::FromSpecImpl<ImageViewMut> for DynamicImageViewMut {
    open spec fn obeys_from_spec() -> bool {
        true
    }

    open spec fn from_spec(view: ImageViewMut) -> DynamicImageViewMut {
        DynamicImageViewMut::U8x4(view)
    }
}

/// A write view becomes a read view only by being consumed, so no live
/// write alias survives.
impl From<DynamicImageViewMut> for DynamicImageView {
    fn from(dyn_view: DynamicImageViewMut) -> (r: DynamicImageView)
        ensures
            r.spec_inner().spec_width() == dyn_view.spec_inner().spec_width(),
            r.spec_inner().spec_height() == dyn_view.spec_inner().spec_height(),
            r.spec_inner().spec_data() == dyn_view.spec_inner().spec_data(),
    {
        match dyn_view {
            DynamicImageViewMut::U8x4(typed_view) => DynamicImageView::U8x4(
                typed_view.into_read(),
            ),
        }
    }
}

impl vstd::std_specs::convert::FromSpecImpl<DynamicImageViewMut> for DynamicImageView {
    open spec fn obeys_from_spec() -> bool {
        true
    }

    closed spec fn from_spec(dyn_view: DynamicImageViewMut) -> DynamicImageView {
        match dyn_view {
            DynamicImageViewMut::U8x4(typed_view) => DynamicImageView::U8x4(
                crate::image_view::read_view_of(typed_view),
            ),
        }
    }
}

} // verus!
