//! A small image-detection service library: it turns an untrusted data URL
//! into raw image bytes, gates detection on a loaded model, and reduces the
//! model's raw detections into a stable response shape.

pub mod decoder;
pub mod detector;
pub mod errors;
pub mod image;

pub use errors::ProcessError;
