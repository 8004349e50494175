//! The decoded image: a rectangular 3-channel pixel buffer, described here by
//! the dimensions the compressed image declares. The pixel data itself stays
//! with the inference engine outside this library; the rule the library owns
//! is that a decoded image is never empty.

use vstd::prelude::*;

use crate::errors::ProcessError;

verus! {

/// The shape of a successfully decoded image, in pixels.
#[derive(Clone, Copy, Debug, PartialEq, Eq, Structural)]
pub struct DecodedImage {
    pub width: i32,
    pub height: i32,
}

impl DecodedImage {
    /// A decoded image is never empty.
    pub open spec fn wf(&self) -> bool {
        self.width > 0 && self.height > 0
    }
}

/// Classify the outcome of the image-decode step: decoding succeeded exactly
/// when it produced a non-empty frame; an empty frame (corrupt bytes, an
/// unsupported format, a zero-length buffer) is `ImageDecodeError`.
pub fn validate_image_dims(width: i32, height: i32) -> (r: Result<DecodedImage, ProcessError>)
    ensures
        r is Ok <==> (width > 0 && height > 0),
        r is Ok ==> r->Ok_0 == (DecodedImage { width, height }) && r->Ok_0.wf(),
        r is Err ==> r->Err_0 == ProcessError::ImageDecodeError,
{
    if width > 0 && height > 0 {
        Ok(DecodedImage { width, height })
    } else {
        Err(ProcessError::ImageDecodeError)
    }
}

} // verus!
