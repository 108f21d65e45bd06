//! What holds of every search, proved from the definitions.

use crate::decimal::{decimal, lemma_decimal_round_trip};
use crate::digest::{hex_lower, md5_digest};
use crate::error::EtagError;
use crate::estimate::{
    candidate_range_spec, lemma_bounds_ordered, lemma_true_size_in_bounds, parts_needed,
    whole_megabytes, CandidateSize, MEGABYTE,
};
use crate::hasher::{candidate_matches, composite_tag_spec, part_digests};
use crate::search::{guess_etag_spec, outcome_of, search_outcome, SearchOutcome};
use crate::tag::{
    is_first_separator, lemma_digits_have_no_separator, lemma_first_separator_unique,
    lemma_hex_has_no_separator, lemma_separators_concat, lemma_separators_zero, parse_tag_spec,
    separators, TagModel, DASH,
};
use vstd::prelude::*;

verus! {

/// A composite tag reads back as what it was made of: the digest text before
/// the dash and the part count after it.
pub proof fn lemma_composite_tag_parses(buffer: Seq<u8>, size_mb: nat, part_count: nat)
    requires
        2 <= part_count <= usize::MAX,
    ensures
        parse_tag_spec(composite_tag_spec(buffer, size_mb, part_count)) == Ok::<
            TagModel,
            EtagError,
        >(
            TagModel {
                digest: hex_lower(md5_digest(part_digests(buffer, size_mb * MEGABYTE))),
                part_count,
            },
        ),
{
    let digest = hex_lower(md5_digest(part_digests(buffer, size_mb * MEGABYTE)));
    let count = decimal(part_count);
    let tag = composite_tag_spec(buffer, size_mb, part_count);
    let at = digest.len() as int;
    lemma_decimal_round_trip(part_count);
    lemma_hex_has_no_separator(md5_digest(part_digests(buffer, size_mb * MEGABYTE)));
    lemma_digits_have_no_separator(count);
    lemma_separators_concat(digest, seq![DASH]);
    lemma_separators_concat(digest + seq![DASH], count);
    assert(separators(seq![DASH]) == 1) by {
        let dash = seq![DASH];
        assert(dash.len() == 1 && dash.last() == DASH);
        assert(dash.drop_last() =~= Seq::<u8>::empty());
        assert(separators(dash.drop_last()) == 0);
    }
    assert(is_first_separator(tag, at)) by {
        lemma_separators_zero(digest);
        assert(tag[at] == DASH);
        assert forall|j: int| 0 <= j < at implies tag[j] != DASH by {
            assert(tag[j] == digest[j]);
        }
    }
    lemma_first_separator_unique(tag, at);
    assert(tag.skip(at + 1) =~= count);
    assert(tag.take(at) =~= digest);
}

/// A tag without a dash is matched exactly when it is the digest of the whole
/// buffer in hexadecimal; otherwise the search is exhausted. No part size
/// plays a role, whether the caller gave one or not.
pub proof fn lemma_single_part_outcome(
    buffer: Seq<u8>,
    tag: Seq<u8>,
    chunk_size: Option<Seq<u8>>,
)
    requires
        separators(tag) == 0,
    ensures
        guess_etag_spec(buffer, tag, chunk_size) == Ok::<SearchOutcome, EtagError>(
            outcome_of(tag == hex_lower(md5_digest(buffer))),
        ),
{
    let digest = hex_lower(md5_digest(buffer));
    let suffixed = digest + seq![DASH] + decimal(1);
    lemma_separators_zero(tag);
    if tag == suffixed {
        assert(suffixed[digest.len() as int] == DASH);
    }
}

/// The part size that produced a tag is found: for a buffer that parts of
/// `size_mb` megabytes divide into `part_count` parts, the last one holding
/// what is left, the search over the candidates derived from the buffer's
/// size and the part count matches the composite tag of that size.
pub proof fn lemma_true_size_is_matched(buffer: Seq<u8>, size_mb: nat, part_count: usize)
    requires
        part_count >= 2,
        size_mb >= 1,
        buffer.len() <= usize::MAX,
        parts_needed(buffer.len(), size_mb * (MEGABYTE as nat)) == part_count,
    ensures
        search_outcome(
            candidate_range_spec(whole_megabytes(buffer.len()) as usize, part_count),
            part_count as nat,
            buffer,
            composite_tag_spec(buffer, size_mb, part_count as nat),
        ) == SearchOutcome::Matched,
        guess_etag_spec(buffer, composite_tag_spec(buffer, size_mb, part_count as nat), None)
            == Ok::<SearchOutcome, EtagError>(SearchOutcome::Matched),
{
    let file_size_mb = whole_megabytes(buffer.len());
    let tag = composite_tag_spec(buffer, size_mb, part_count as nat);
    let candidates = candidate_range_spec(file_size_mb as usize, part_count);
    lemma_true_size_in_bounds(buffer.len(), part_count as nat, size_mb);
    lemma_bounds_ordered(file_size_mb, part_count as nat);
    assert(candidate_matches(buffer, tag, part_count as nat, size_mb));
    lemma_composite_tag_parses(buffer, size_mb, part_count as nat);
}

/// A file of less than one megabyte has no part size to try but zero, so a
/// tag of two parts or more is never matched.
pub proof fn lemma_small_file_is_exhausted(buffer: Seq<u8>, tag: Seq<u8>, part_count: usize)
    requires
        part_count >= 2,
        buffer.len() < MEGABYTE,
    ensures
        candidate_range_spec(whole_megabytes(buffer.len()) as usize, part_count)
            == CandidateSize::Fixed(0),
        search_outcome(
            candidate_range_spec(whole_megabytes(buffer.len()) as usize, part_count),
            part_count as nat,
            buffer,
            tag,
        ) == SearchOutcome::Exhausted,
{
    let n = part_count as int;
    assert(0int / n == 0 && 0int / (n - 1) == 0) by (nonlinear_arith)
        requires
            n >= 2,
    ;
}

} // verus!
