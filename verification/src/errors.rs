//! The error taxonomy of the request pipeline. Every failure is terminal for
//! its request and classified by exactly one of these kinds.

use vstd::prelude::*;

verus! {

/// One kind per way a request can fail; none is retried.
#[derive(Clone, Copy, Debug, PartialEq, Eq, Structural)]
pub enum ProcessError {
    /// The request string lacks the expected comma delimiter.
    MalformedInput,
    /// The payload after the comma is not valid base64.
    InvalidEncoding,
    /// The decoded bytes are not a valid compressed image.
    ImageDecodeError,
    /// The detection model failed to load; affects every request.
    ModelUnavailable,
    /// The inference call itself failed on otherwise-valid input.
    DetectionFailure,
}

impl ProcessError {
    /// A short client-facing message; internal details are never leaked.
    pub fn message(&self) -> (r: &'static str)
        ensures
            r@ == self.message_spec(),
    {
        match self {
            ProcessError::MalformedInput => "input could not be parsed as a data URL",
            ProcessError::InvalidEncoding => "invalid base64 data",
            ProcessError::ImageDecodeError => "failed to decode image",
            ProcessError::ModelUnavailable => "detection model is unavailable",
            ProcessError::DetectionFailure => "error in processing the image",
        }
    }

    pub open spec fn message_spec(&self) -> Seq<char> {
        match self {
            ProcessError::MalformedInput => "input could not be parsed as a data URL"@,
            ProcessError::InvalidEncoding => "invalid base64 data"@,
            ProcessError::ImageDecodeError => "failed to decode image"@,
            ProcessError::ModelUnavailable => "detection model is unavailable"@,
            ProcessError::DetectionFailure => "error in processing the image"@,
        }
    }

    /// Whether this failure is the client's fault (a bad request payload,
    /// from the missing delimiter up to bytes that are no compressed image)
    /// rather than the service's; the surrounding server maps this to a
    /// status class.
    pub fn is_client_error(&self) -> (r: bool)
        ensures
            r <==> (*self is MalformedInput || *self is InvalidEncoding
                || *self is ImageDecodeError),
    {
        match self {
            ProcessError::MalformedInput => true,
            ProcessError::InvalidEncoding => true,
            ProcessError::ImageDecodeError => true,
            _ => false,
        }
    }
}

} // verus!
