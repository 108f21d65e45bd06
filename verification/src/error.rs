//! The ways in which a request can be refused.

use vstd::prelude::*;

verus! {

/// Why a file could not be compared with a tag. Each of them describes the
/// input, so trying again with the same input fails in the same way.
#[derive(Debug, Clone, Copy, PartialEq, Eq, Structural)]
pub enum EtagError {
    /// The tag is shorter than a digest, has more than one dash, or the text
    /// after its dash is not a number above one.
    InvalidTagFormat,
    /// The file holds no bytes.
    EmptyFile,
    /// The part size given by the caller is not a number above zero.
    InvalidChunkSizeOverride,
}

} // verus!
