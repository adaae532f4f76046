//! Failure taxonomy of the processing pipeline.

use vstd::prelude::*;

verus! {

/// Everything that can go wrong while ingesting and processing one upload.
///
/// Every stage fails fast: the first error aborts the request and is
/// surfaced unchanged; no partial result is ever returned.
#[derive(Clone, Copy, PartialEq, Eq, Structural, Debug)]
pub enum ProcessError {
    /// The multipart body never supplied a field named `image`.
    NoImageField,
    /// A stream-framing error occurred while reading the body.
    MalformedStream,
    /// Storage allocation, write, flush, read, or delete failed.
    IoFailure,
    /// The uploaded bytes are not a valid image of a supported
    /// container, or the decoded image has zero area.
    UnreadableImage,
    /// Re-encoding the binarized buffer failed.
    EncodeFailure,
}

impl ProcessError {
    /// True for the failures caused by the request itself, which the
    /// transport layer maps to a client error status; the rest are
    /// server-side failures.
    pub fn is_client_error(&self) -> (r: bool)
        ensures
            r == (*self == ProcessError::NoImageField || *self == ProcessError::MalformedStream),
    {
        match self {
            ProcessError::NoImageField => true,
            ProcessError::MalformedStream => true,
            _ => false,
        }
    }

    /// The human-readable message for the error envelope; no internal
    /// paths or stack traces are exposed.
    pub fn message(&self) -> (r: String)
        ensures
            *self == ProcessError::NoImageField ==> r@ == "No image field found in request"@,
            *self == ProcessError::MalformedStream ==> r@ == "Invalid multipart data"@,
            *self == ProcessError::IoFailure ==> r@ == "Error writing to temporary file"@,
            *self == ProcessError::UnreadableImage ==> r@ == "Image processing failed"@,
            *self == ProcessError::EncodeFailure ==> r@ == "Failed to encode processed image"@,
    {
        match self {
            ProcessError::NoImageField => String::from_str("No image field found in request"),
            ProcessError::MalformedStream => String::from_str("Invalid multipart data"),
            ProcessError::IoFailure => String::from_str("Error writing to temporary file"),
            ProcessError::UnreadableImage => String::from_str("Image processing failed"),
            ProcessError::EncodeFailure => String::from_str("Failed to encode processed image"),
        }
    }
}

} // verus!
