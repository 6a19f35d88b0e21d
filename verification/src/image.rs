//! The image codec boundary.
//!
//! Sprite frames are stored as QOI-encoded blobs.  Whether a blob is
//! drawable is decided by the codec; the cache and the compositor only
//! need the yes/no answer to choose between the frame and the built-in
//! placeholder.

use vstd::prelude::*;

verus! {

/// Whether a byte string parses as a QOI image.  The answer is a function
/// of the bytes alone.
pub uninterp spec fn qoi_ok(b: Seq<u8>) -> bool;

/// Relies on tinyqoi's `Qoi::new`: it inspects only the given bytes
/// (length, magic, header, end marker), so success depends on the bytes
/// alone.
#[verifier::external_body]
pub(crate) fn qoi_valid(data: &Vec<u8>) -> (r: bool)
    ensures
        r == qoi_ok(data@),
{
    tinyqoi::Qoi::new(data.as_slice()).is_ok()
}

} // verus!
