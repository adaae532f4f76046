//! Verified core of a single-image binarization service.
//!
//! The library receives the bytes of one uploaded image, decodes them to an
//! 8-bit grayscale buffer, computes a global threshold by Otsu's method,
//! applies it to produce a strictly two-level image, re-encodes the result in
//! the format family declared by the upload's filename, and packages the
//! encoded bytes as a base64 `data:` URL together with the threshold.
//!
//! Decoding and re-encoding are delegated to the `image` crate behind trusted
//! wrappers; everything else — histogram, threshold solver, binarizer, format
//! inference, base64 codec and result packaging — is verified.

pub mod b64;
pub mod errors;
pub mod format;
pub mod gray;
pub mod codec;
pub mod histogram;
pub mod ingest;
pub mod otsu;
pub mod package;
pub mod pipeline;
