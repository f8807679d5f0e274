//! Errors raised while classifying a file's content.

use vstd::prelude::*;

verus! {

/// Declares flate2's compression error type so that library errors can
/// carry it. Nothing is assumed about its values; it is only passed along
/// to the caller.
#[verifier::external_type_specification]
#[verifier::external_body]
pub struct ExCompressError(flate2::CompressError);

/// An error raised while classifying a file's content. Reading and opening
/// files is the caller's business, so input/output errors never appear
/// here; the one failure the engine could meet is the compression stream's.
/// The library's call discipline makes even that unreachable — every
/// function returning this type is proved to return its success case — but
/// a stream error is still passed along rather than discarded, so that a
/// failure of the underlying stream would surface instead of vanishing.
#[derive(Debug)]
pub enum ProcError {
    /// The deflate stream reported an error.
    Compress(flate2::CompressError),
}

} // verus!
