//! The ways a run can fail inside the library.

use vstd::prelude::*;

verus! {

/// Why an image could not be processed.
#[derive(Clone, Copy, Debug, PartialEq, Eq, Structural)]
pub enum ImageError {
    /// The image is too small for the border ring to be sampled, or too
    /// large for the canvas and its outlines to be laid out.
    InvalidDimensions,
    /// The frame that the border colour calls for is not available.
    AssetLoad,
}

} // verus!
