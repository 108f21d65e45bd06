//! The search for a part size that reproduces a published tag.

use crate::decimal::{parse_usize, parse_usize_spec};
use crate::error::EtagError;
use crate::estimate::{
    candidate_range, candidate_range_spec, whole_megabytes, CandidateSize, MEGABYTE,
};
use crate::hasher::{candidate_matches, compute, compute_simple, simple_tag_matches};
use crate::tag::{parse_tag, parse_tag_spec};
use rayon::iter::{IndexedParallelIterator, IntoParallelIterator, ParallelIterator};
use vstd::prelude::*;

verus! {

/// The least number of bytes in a tag: the length of a digest in hexadecimal.
pub const MIN_TAG_LENGTH: usize = 32;

/// How a search ended.
#[derive(Debug, Clone, Copy, PartialEq, Eq, Structural)]
pub enum SearchOutcome {
    /// A candidate part size reproduced the tag.
    Matched,
    /// No candidate did.
    Exhausted,
}

/// `Matched` where `matched` holds, else `Exhausted`.
pub open spec fn outcome_of(matched: bool) -> SearchOutcome {
    if matched {
        SearchOutcome::Matched
    } else {
        SearchOutcome::Exhausted
    }
}

/// Whether one of the `candidates` reproduces `tag`.
pub open spec fn some_candidate_matches(
    candidates: CandidateSize,
    part_count: nat,
    buffer: Seq<u8>,
    tag: Seq<u8>,
) -> bool {
    exists|size: nat|
        candidates.contains(size) && #[trigger] candidate_matches(buffer, tag, part_count, size)
}

/// Whether one of the sizes from `start` up to, not including, `end`
/// reproduces `tag`.
pub open spec fn some_size_matches(
    start: nat,
    end: nat,
    part_count: nat,
    buffer: Seq<u8>,
    tag: Seq<u8>,
) -> bool {
    exists|size: nat|
        start <= size < end && #[trigger] candidate_matches(buffer, tag, part_count, size)
}

/// The outcome of a search over `candidates`.
pub open spec fn search_outcome(
    candidates: CandidateSize,
    part_count: nat,
    buffer: Seq<u8>,
    tag: Seq<u8>,
) -> SearchOutcome {
    outcome_of(some_candidate_matches(candidates, part_count, buffer, tag))
}

/// The part size that `text` gives: a number above zero that fits the machine
/// word.
pub open spec fn parse_chunk_size_spec(text: Seq<u8>) -> Result<usize, EtagError> {
    match parse_usize_spec(text) {
        Some(size) => if size > 0 {
            Ok(size)
        } else {
            Err(EtagError::InvalidChunkSizeOverride)
        },
        None => Err(EtagError::InvalidChunkSizeOverride),
    }
}

/// The result of comparing `buffer` with `tag`. An invalid tag is refused
/// first. A tag of one part is compared with the digest of the whole buffer,
/// whatever `chunk_size` holds. For a tag of several parts the candidates are
/// the part size in `chunk_size`, where one is given, else those derived from
/// the size of the buffer and the part count.
pub open spec fn guess_etag_spec(
    buffer: Seq<u8>,
    tag: Seq<u8>,
    chunk_size: Option<Seq<u8>>,
) -> Result<SearchOutcome, EtagError> {
    match parse_tag_spec(tag) {
        Err(error) => Err(error),
        Ok(published) => if published.part_count == 1 {
            Ok(outcome_of(simple_tag_matches(buffer, tag)))
        } else {
            match chunk_size {
                Some(text) => match parse_chunk_size_spec(text) {
                    Err(error) => Err(error),
                    Ok(size) => Ok(
                        search_outcome(
                            CandidateSize::Fixed(size),
                            published.part_count,
                            buffer,
                            tag,
                        ),
                    ),
                },
                None => Ok(
                    search_outcome(
                        candidate_range_spec(
                            whole_megabytes(buffer.len()) as usize,
                            published.part_count as usize,
                        ),
                        published.part_count,
                        buffer,
                        tag,
                    ),
                ),
            }
        },
    }
}

/// The result for a file: an empty file is refused, then a tag shorter than
/// a digest, and the rest is `guess_etag_spec`.
pub open spec fn verify_etag_spec(
    buffer: Seq<u8>,
    tag: Seq<u8>,
    chunk_size: Option<Seq<u8>>,
) -> Result<SearchOutcome, EtagError> {
    if buffer.len() == 0 {
        Err(EtagError::EmptyFile)
    } else if tag.len() < MIN_TAG_LENGTH {
        Err(EtagError::InvalidTagFormat)
    } else {
        guess_etag_spec(buffer, tag, chunk_size)
    }
}

/// The bytes behind an optional slice.
pub open spec fn optional_bytes(text: Option<&[u8]>) -> Option<Seq<u8>> {
    match text {
        Some(bytes) => Some(bytes@),
        None => None,
    }
}

/// Tries the sizes from `start` up to, not including, `end` on several
/// threads: rayon's `into_par_iter` on the range, `rev` to begin with the
/// largest, and `any` with `compute` as the test. The contract is believed,
/// not proved. It claims of rayon that `any` returns true where the test
/// holds for some item of the range, and false where it fails for every
/// item. Once an item passes, rayon tries to stop the work on the others.
#[verifier::external_body]
fn any_size_matches(
    start: usize,
    end: usize,
    chunks: usize,
    buffer: &[u8],
    etag: &[u8],
) -> (found: bool)
    ensures
        found == some_size_matches(start as nat, end as nat, chunks as nat, buffer@, etag@),
{
    (start..end).into_par_iter().rev().any(|size| compute(size, chunks, buffer, etag))
}

/// Searches the candidate part sizes for one that reproduces `etag`.
pub fn compute_concat(
    size: CandidateSize,
    chunks: usize,
    buffer: &[u8],
    etag: &[u8],
) -> (outcome: SearchOutcome)
    ensures
        outcome == search_outcome(size, chunks as nat, buffer@, etag@),
{
    let found = match size {
        CandidateSize::Fixed(only) => compute(only, chunks, buffer, etag),
        CandidateSize::Range(min, max) => {
            if min > max {
                false
            } else if max == usize::MAX {
                // No range ends after the largest size: try that one by itself.
                compute(max, chunks, buffer, etag) || any_size_matches(
                    min,
                    max,
                    chunks,
                    buffer,
                    etag,
                )
            } else {
                any_size_matches(min, max + 1, chunks, buffer, etag)
            }
        },
    };
    if found {
        SearchOutcome::Matched
    } else {
        SearchOutcome::Exhausted
    }
}

/// Reads a part size given by the caller.
pub fn parse_chunk_size(text: &[u8]) -> (parsed: Result<usize, EtagError>)
    ensures
        parsed == parse_chunk_size_spec(text@),
{
    match parse_usize(text) {
        Some(size) => {
            if size > 0 {
                Ok(size)
            } else {
                Err(EtagError::InvalidChunkSizeOverride)
            }
        },
        None => Err(EtagError::InvalidChunkSizeOverride),
    }
}

/// Tells whether `buffer` is the content that `etag` was published for,
/// with the part size in `chunk_size` where the caller knows it.
pub fn guess_etag_parallel(
    buffer: &[u8],
    etag: &[u8],
    chunk_size: Option<&[u8]>,
) -> (result: Result<SearchOutcome, EtagError>)
    ensures
        result == guess_etag_spec(buffer@, etag@, optional_bytes(chunk_size)),
{
    let published = match parse_tag(etag) {
        Ok(published) => published,
        Err(error) => {
            return Err(error);
        },
    };
    let chunks = published.part_count;
    if chunks == 1 {
        let matched = compute_simple(buffer, etag);
        return Ok(
            if matched {
                SearchOutcome::Matched
            } else {
                SearchOutcome::Exhausted
            },
        );
    }
    let candidates = match chunk_size {
        Some(text) => match parse_chunk_size(text) {
            Ok(size) => CandidateSize::Fixed(size),
            Err(error) => {
                return Err(error);
            },
        },
        None => candidate_range(buffer.len() / MEGABYTE, chunks),
    };
    Ok(compute_concat(candidates, chunks, buffer, etag))
}

/// Tells whether the content of a file is what its published tag says,
/// after refusing an empty file and a tag too short to hold a digest.
pub fn verify_etag(
    buffer: &[u8],
    etag: &[u8],
    chunk_size: Option<&[u8]>,
) -> (result: Result<SearchOutcome, EtagError>)
    ensures
        result == verify_etag_spec(buffer@, etag@, optional_bytes(chunk_size)),
{
    if buffer.len() == 0 {
        return Err(EtagError::EmptyFile);
    }
    if etag.len() < MIN_TAG_LENGTH {
        return Err(EtagError::InvalidTagFormat);
    }
    guess_etag_parallel(buffer, etag, chunk_size)
}

} // verus!
