use s3etag::error::EtagError;
use s3etag::estimate::{CandidateSize, MEGABYTE};
use s3etag::search::{
    compute_concat, guess_etag_parallel, parse_chunk_size, verify_etag, SearchOutcome,
    MIN_TAG_LENGTH,
};

fn pattern(length: usize) -> Vec<u8> {
    let mut bytes = Vec::with_capacity(length);
    let mut state: u32 = 0x9e37_79b9;
    for _ in 0..length {
        state ^= state << 13;
        state ^= state >> 17;
        state ^= state << 5;
        bytes.push((state >> 16) as u8);
    }
    bytes
}

fn reference_tag(buffer: &[u8], part_bytes: usize, part_count: usize) -> Vec<u8> {
    let mut digests: Vec<u8> = Vec::new();
    for part in buffer.chunks(part_bytes) {
        digests.extend_from_slice(&md5::compute(part).0);
    }
    format!("{:x}-{}", md5::compute(&digests), part_count).into_bytes()
}

fn simple_tag(buffer: &[u8]) -> Vec<u8> {
    format!("{:x}", md5::compute(buffer)).into_bytes()
}

#[test]
fn fifteen_megabytes_in_parts_of_ten() {
    let buffer = pattern(15_728_640);
    let d1 = md5::compute(&buffer[..10 * MEGABYTE]);
    let d2 = md5::compute(&buffer[10 * MEGABYTE..]);
    let mut both = d1.0.to_vec();
    both.extend_from_slice(&d2.0);
    let tag = format!("{:x}-2", md5::compute(&both)).into_bytes();
    assert_eq!(
        compute_concat(CandidateSize::Range(7, 15), 2, &buffer, &tag),
        SearchOutcome::Matched
    );
    assert_eq!(guess_etag_parallel(&buffer, &tag, None), Ok(SearchOutcome::Matched));
    assert_eq!(verify_etag(&buffer, &tag, None), Ok(SearchOutcome::Matched));
}

#[test]
fn invalid_tag_is_refused() {
    let buffer = pattern(100);
    assert_eq!(guess_etag_parallel(&buffer, b"abc-xyz", None), Err(EtagError::InvalidTagFormat));
    assert_eq!(verify_etag(&buffer, b"abc-xyz", None), Err(EtagError::InvalidTagFormat));
    assert_eq!(
        guess_etag_parallel(&buffer, b"abc-xyz", Some(b"5")),
        Err(EtagError::InvalidTagFormat)
    );
}

#[test]
fn single_part_tag_matches_the_digest() {
    let buffer = pattern(300_000);
    let tag = simple_tag(&buffer);
    assert_eq!(guess_etag_parallel(&buffer, &tag, None), Ok(SearchOutcome::Matched));
    assert_eq!(verify_etag(&buffer, &tag, None), Ok(SearchOutcome::Matched));
    assert_eq!(
        verify_etag(b"abc", b"900150983cd24fb0d6963f7d28e17f72", None),
        Ok(SearchOutcome::Matched)
    );
}

#[test]
fn single_part_tag_of_other_content_is_exhausted() {
    let buffer = pattern(300_000);
    let tag = simple_tag(&buffer);
    let mut other = buffer.clone();
    other[0] ^= 0x80;
    assert_eq!(guess_etag_parallel(&other, &tag, None), Ok(SearchOutcome::Exhausted));
    assert_eq!(
        verify_etag(b"abd", b"900150983cd24fb0d6963f7d28e17f72", None),
        Ok(SearchOutcome::Exhausted)
    );
}

#[test]
fn single_part_tag_needs_no_part_size() {
    let buffer = pattern(5000);
    let tag = simple_tag(&buffer);
    assert_eq!(guess_etag_parallel(&buffer, &tag, Some(b"8")), Ok(SearchOutcome::Matched));
    assert_eq!(guess_etag_parallel(&buffer, &tag, Some(b"nonsense")), Ok(SearchOutcome::Matched));
    // A large buffer with a single-part tag is still hashed in one piece.
    let large = pattern(3 * MEGABYTE + 11);
    assert_eq!(guess_etag_parallel(&large, &simple_tag(&large), None), Ok(SearchOutcome::Matched));
}

#[test]
fn synthetic_upload_is_found_in_its_range() {
    for (size, parts, last) in [(1usize, 2usize, 1usize), (1, 3, 524_288), (2, 2, 2 * MEGABYTE), (1, 5, 77)] {
        let length = (parts - 1) * size * MEGABYTE + last;
        let buffer = pattern(length);
        let tag = reference_tag(&buffer, size * MEGABYTE, parts);
        assert_eq!(
            guess_etag_parallel(&buffer, &tag, None),
            Ok(SearchOutcome::Matched),
            "size {} parts {} last {}",
            size,
            parts,
            last
        );
    }
}

#[test]
fn changed_content_is_exhausted() {
    let mut buffer = pattern(2 * MEGABYTE + 100);
    let tag = reference_tag(&buffer, MEGABYTE, 3);
    buffer[MEGABYTE] ^= 1;
    assert_eq!(guess_etag_parallel(&buffer, &tag, None), Ok(SearchOutcome::Exhausted));
}

#[test]
fn repeated_search_gives_the_same_outcome() {
    let buffer = pattern(2 * MEGABYTE + 100);
    let tag = reference_tag(&buffer, MEGABYTE, 3);
    let first = guess_etag_parallel(&buffer, &tag, None);
    let second = guess_etag_parallel(&buffer, &tag, None);
    assert_eq!(first, Ok(SearchOutcome::Matched));
    assert_eq!(first, second);
}

#[test]
fn fixed_size_is_tried_once() {
    let buffer = pattern(2 * MEGABYTE + 100);
    let tag = reference_tag(&buffer, MEGABYTE, 3);
    assert_eq!(compute_concat(CandidateSize::Fixed(1), 3, &buffer, &tag), SearchOutcome::Matched);
    assert_eq!(compute_concat(CandidateSize::Fixed(2), 3, &buffer, &tag), SearchOutcome::Exhausted);
    assert_eq!(compute_concat(CandidateSize::Fixed(0), 3, &buffer, &tag), SearchOutcome::Exhausted);
}

#[test]
fn range_is_searched_at_both_ends() {
    let buffer = pattern(3 * MEGABYTE + 100);
    let tag = reference_tag(&buffer, 2 * MEGABYTE, 2);
    assert_eq!(compute_concat(CandidateSize::Range(2, 4), 2, &buffer, &tag), SearchOutcome::Matched);
    assert_eq!(compute_concat(CandidateSize::Range(0, 2), 2, &buffer, &tag), SearchOutcome::Matched);
    assert_eq!(compute_concat(CandidateSize::Range(2, 2), 2, &buffer, &tag), SearchOutcome::Matched);
    assert_eq!(compute_concat(CandidateSize::Range(0, 1), 2, &buffer, &tag), SearchOutcome::Exhausted);
    assert_eq!(compute_concat(CandidateSize::Range(3, 3), 2, &buffer, &tag), SearchOutcome::Exhausted);
}

#[test]
fn range_with_bounds_in_the_wrong_order_is_empty() {
    let buffer = pattern(MEGABYTE + 1);
    let tag = reference_tag(&buffer, MEGABYTE, 2);
    assert_eq!(compute_concat(CandidateSize::Range(2, 0), 2, &buffer, &tag), SearchOutcome::Exhausted);
    assert_eq!(compute_concat(CandidateSize::Range(0, 2), 2, &buffer, &tag), SearchOutcome::Matched);
}

#[test]
fn range_up_to_the_largest_size() {
    let buffer = pattern(2000);
    // Any size of one megabyte or more makes one part of this buffer.
    let tag = reference_tag(&buffer, 2000, 2);
    assert_eq!(
        compute_concat(CandidateSize::Range(usize::MAX - 2, usize::MAX), 2, &buffer, &tag),
        SearchOutcome::Matched
    );
    assert_eq!(
        compute_concat(CandidateSize::Range(usize::MAX, usize::MAX), 2, &buffer, &tag),
        SearchOutcome::Matched
    );
    let other = reference_tag(&buffer, 1000, 2);
    assert_eq!(
        compute_concat(CandidateSize::Range(usize::MAX - 2, usize::MAX), 2, &buffer, &other),
        SearchOutcome::Exhausted
    );
}

#[test]
fn file_below_one_megabyte_with_several_parts() {
    let buffer = pattern(1000);
    let tag = reference_tag(&buffer, MEGABYTE, 2);
    assert_eq!(guess_etag_parallel(&buffer, &tag, None), Ok(SearchOutcome::Exhausted));
    assert_eq!(verify_etag(&buffer, &tag, None), Ok(SearchOutcome::Exhausted));
    assert_eq!(
        guess_etag_parallel(&buffer, b"d41d8cd98f00b204e9800998ecf8427e-7", None),
        Ok(SearchOutcome::Exhausted)
    );
    // With the part size given, the same tag is matched.
    assert_eq!(guess_etag_parallel(&buffer, &tag, Some(b"1")), Ok(SearchOutcome::Matched));
}

#[test]
fn explicit_part_size_is_used() {
    let buffer = pattern(3 * MEGABYTE + 100);
    let tag = reference_tag(&buffer, 2 * MEGABYTE, 2);
    assert_eq!(guess_etag_parallel(&buffer, &tag, Some(b"2")), Ok(SearchOutcome::Matched));
    assert_eq!(guess_etag_parallel(&buffer, &tag, Some(b"+2")), Ok(SearchOutcome::Matched));
    assert_eq!(guess_etag_parallel(&buffer, &tag, Some(b"3")), Ok(SearchOutcome::Exhausted));
    assert_eq!(guess_etag_parallel(&buffer, &tag, Some(b"1")), Ok(SearchOutcome::Exhausted));
    assert_eq!(verify_etag(&buffer, &tag, Some(b"2")), Ok(SearchOutcome::Matched));
}

#[test]
fn invalid_part_size_is_refused() {
    let buffer = pattern(MEGABYTE + 1);
    let tag = reference_tag(&buffer, MEGABYTE, 2);
    for text in [&b"0"[..], b"", b"abc", b"-1", b"1.5", b"99999999999999999999999999"] {
        assert_eq!(
            guess_etag_parallel(&buffer, &tag, Some(text)),
            Err(EtagError::InvalidChunkSizeOverride)
        );
    }
}

#[test]
fn part_size_text() {
    assert_eq!(parse_chunk_size(b"8"), Ok(8));
    assert_eq!(parse_chunk_size(b"+16"), Ok(16));
    assert_eq!(parse_chunk_size(b"0"), Err(EtagError::InvalidChunkSizeOverride));
    assert_eq!(parse_chunk_size(b"00"), Err(EtagError::InvalidChunkSizeOverride));
    assert_eq!(parse_chunk_size(b""), Err(EtagError::InvalidChunkSizeOverride));
    assert_eq!(parse_chunk_size(b"eight"), Err(EtagError::InvalidChunkSizeOverride));
}

#[test]
fn empty_file_is_refused() {
    assert_eq!(
        verify_etag(b"", b"d41d8cd98f00b204e9800998ecf8427e", None),
        Err(EtagError::EmptyFile)
    );
    assert_eq!(verify_etag(b"", b"abc-xyz", Some(b"x")), Err(EtagError::EmptyFile));
}

#[test]
fn short_tag_is_refused() {
    assert_eq!(MIN_TAG_LENGTH, 32);
    assert_eq!(verify_etag(b"abc", b"", None), Err(EtagError::InvalidTagFormat));
    assert_eq!(
        verify_etag(b"abc", b"900150983cd24fb0d6963f7d28e17f7", None),
        Err(EtagError::InvalidTagFormat)
    );
    assert_eq!(
        verify_etag(b"abc", b"900150983cd24fb0d6963f7d28e1-12", None),
        Err(EtagError::InvalidTagFormat)
    );
    // The search itself also takes a short tag: it matches nothing.
    assert_eq!(guess_etag_parallel(b"abc", b"9001", None), Ok(SearchOutcome::Exhausted));
}

#[test]
fn tag_with_noncanonical_count_matches_nothing() {
    let buffer = pattern(MEGABYTE + 1);
    let tag = reference_tag(&buffer, MEGABYTE, 2);
    let mut padded = tag[..33].to_vec();
    padded.extend_from_slice(b"02");
    assert_eq!(guess_etag_parallel(&buffer, &tag, None), Ok(SearchOutcome::Matched));
    assert_eq!(guess_etag_parallel(&buffer, &padded, None), Ok(SearchOutcome::Exhausted));
}
