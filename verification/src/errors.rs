//! Error types returned by view construction, row copying and resizing.

use vstd::prelude::*;

verus! {

/// Why a view or image could not be built from a caller's byte buffer.
#[derive(Debug, Clone, Copy, PartialEq, Eq, Structural)]
pub enum ImageBufferError {
    /// The buffer is shorter than the declared dimensions require.
    InvalidBufferSize,
    /// The buffer's layout cannot be reinterpreted as the pixel type.
    InvalidBufferAlignment,
}

/// A resize was asked to work between views of different pixel formats.
#[derive(Debug, Clone, Copy, PartialEq, Eq, Structural)]
pub struct DifferentTypesOfPixelsError;

/// A row copy was asked to work between views of different extents.
#[derive(Debug, Clone, Copy, PartialEq, Eq, Structural)]
pub struct DifferentDimensionsError;

/// Failure of a whole-image mapping operation.
#[derive(Debug, Clone, Copy, PartialEq, Eq, Structural)]
pub enum MappingError {
    DifferentDimensions,
}

impl From<DifferentDimensionsError> for MappingError {
    fn from(_error: DifferentDimensionsError) -> (r: Self) {
        MappingError::DifferentDimensions
    }
}

impl vstd::std_specs::convert::FromSpecImpl<DifferentDimensionsError> for MappingError {
    open spec fn obeys_from_spec() -> bool {
        true
    }

    open spec fn from_spec(_error: DifferentDimensionsError) -> Self {
        MappingError::DifferentDimensions
    }
}

} // verus!
