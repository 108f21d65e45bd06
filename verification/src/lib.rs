//! Tells whether a file's content is what an object store's entity tag says
//! it is.
//!
//! An object uploaded in one piece is tagged with the MD5 digest of its
//! content. An object uploaded in parts is tagged with the MD5 digest of the
//! concatenated MD5 digests of its parts, followed by a dash and the number of
//! parts. The part size is not in the tag, so for such a tag the library
//! derives the part sizes that the file size and the part count allow and
//! tries each of them.
//!
//! - [`tag`] reads a published tag.
//! - [`estimate`] derives the candidate part sizes.
//! - [`hasher`] computes the tag that a given part size would have produced.
//! - [`search`] tries the candidates and holds the entry points.
//! - [`laws`] states what holds of every search.
//! - [`digest`] and [`decimal`] hold the digests and the text forms that the
//!   others are built on.
//!
//! Tags and part sizes are taken as bytes of ASCII text.

pub mod decimal;
pub mod digest;
pub mod error;
pub mod estimate;
pub mod hasher;
pub mod laws;
pub mod search;
pub mod tag;
