//! The tag that an upload in parts of a given size would have produced.

use crate::decimal::{decimal, to_decimal};
use crate::digest::{digest_bytes, hex_lower, md5_digest, to_hex};
use crate::estimate::MEGABYTE;
use crate::tag::DASH;
use rayon::iter::ParallelIterator;
use rayon::slice::ParallelSlice;
use vstd::prelude::*;

verus! {

/// The digests of the consecutive parts of `buffer`, one after the other in
/// the order of the parts. Each part holds `part_bytes` bytes but the last,
/// which holds what is left. An empty buffer has no parts.
pub open spec fn part_digests(buffer: Seq<u8>, part_bytes: int) -> Seq<u8>
    decreases buffer.len(),
{
    if part_bytes <= 0 || buffer.len() == 0 {
        Seq::empty()
    } else if buffer.len() <= part_bytes {
        md5_digest(buffer)
    } else {
        md5_digest(buffer.take(part_bytes)) + part_digests(buffer.skip(part_bytes), part_bytes)
    }
}

/// The tag of `buffer` uploaded in parts of `size_mb` megabytes, with
/// `part_count` written after the dash: the digest of the part digests in
/// hexadecimal, a dash, and the count in decimal.
pub open spec fn composite_tag_spec(buffer: Seq<u8>, size_mb: nat, part_count: nat) -> Seq<u8> {
    hex_lower(md5_digest(part_digests(buffer, size_mb * MEGABYTE))) + seq![DASH] + decimal(
        part_count,
    )
}

/// Whether parts of `size_mb` megabytes reproduce `tag`. A size of zero
/// divides nothing and reproduces no tag.
pub open spec fn candidate_matches(
    buffer: Seq<u8>,
    tag: Seq<u8>,
    part_count: nat,
    size_mb: nat,
) -> bool {
    size_mb > 0 && tag == composite_tag_spec(buffer, size_mb, part_count)
}

/// Whether `tag` is the digest of the whole `buffer` in hexadecimal, written
/// bare or followed by a dash and the part count one.
pub open spec fn simple_tag_matches(buffer: Seq<u8>, tag: Seq<u8>) -> bool {
    let digest = hex_lower(md5_digest(buffer));
    tag == digest || tag == digest + seq![DASH] + decimal(1)
}

/// Any two part sizes that reach the end of the buffer give the same single
/// part.
pub proof fn lemma_one_part(buffer: Seq<u8>, part_bytes: int, other_bytes: int)
    requires
        part_bytes > 0,
        other_bytes > 0,
        buffer.len() <= part_bytes,
        buffer.len() <= other_bytes,
    ensures
        part_digests(buffer, part_bytes) == part_digests(buffer, other_bytes),
{
}

/// Running the hasher again changes nothing: whatever two runs of
/// `composite_tag` on the same buffer, part size and part count return, each
/// meeting that function's contract, is the same tag.
pub proof fn lemma_composite_tag_repeatable(
    buffer: Seq<u8>,
    size_mb: nat,
    part_count: nat,
    first: Seq<u8>,
    second: Seq<u8>,
)
    requires
        first == composite_tag_spec(buffer, size_mb, part_count),
        second == composite_tag_spec(buffer, size_mb, part_count),
    ensures
        first == second,
        candidate_matches(buffer, first, part_count, size_mb) == candidate_matches(
            buffer,
            second,
            part_count,
            size_mb,
        ),
{
}

/// Splits `buffer` with rayon's `par_chunks`, maps each part to its digest
/// with `flat_map` and gathers the bytes with `collect`, so that the parts
/// are hashed on several threads. The contract is believed, not proved. It
/// claims of rayon that `par_chunks` yields the consecutive slices of
/// `part_bytes` bytes, the last one shorter where the length is no multiple,
/// and none for an empty slice; and that collecting into a vector keeps the
/// items in the order of the parts, whichever was hashed first. `par_chunks`
/// panics on a size of zero, which `requires` leaves out.
#[verifier::external_body]
fn collect_part_digests(buffer: &[u8], part_bytes: usize) -> (digests: Vec<u8>)
    requires
        part_bytes > 0,
    ensures
        digests@ == part_digests(buffer@, part_bytes as int),
{
    buffer.par_chunks(part_bytes).flat_map(|part| digest_bytes(part)).collect()
}

/// Whether two byte strings are the same.
pub fn bytes_equal(left: &[u8], right: &[u8]) -> (same: bool)
    ensures
        same == (left@ == right@),
{
    if left.len() != right.len() {
        return false;
    }
    let mut i: usize = 0;
    while i < left.len()
        invariant
            i <= left.len(),
            left.len() == right.len(),
            left@.take(i as int) == right@.take(i as int),
        decreases left.len() - i,
    {
        if left[i] != right[i] {
            return false;
        }
        i += 1;
    }
    assert(left@.take(i as int) =~= left@);
    assert(right@.take(i as int) =~= right@);
    true
}

fn append_bytes(text: &mut Vec<u8>, tail: &[u8])
    ensures
        final(text)@ == old(text)@ + tail@,
{
    let mut i: usize = 0;
    while i < tail.len()
        invariant
            i <= tail.len(),
            text@ == old(text)@ + tail@.take(i as int),
        decreases tail.len() - i,
    {
        text.push(tail[i]);
        i += 1;
    }
}

/// Computes the tag that `buffer` would carry had it been uploaded in parts
/// of `size` megabytes, with `chunks` as the part count after the dash.
pub fn composite_tag(size: usize, chunks: usize, buffer: &[u8]) -> (tag: Vec<u8>)
    requires
        size > 0,
    ensures
        tag@ == composite_tag_spec(buffer@, size as nat, chunks as nat),
{
    // A part size beyond the address space still means one part.
    let part_bytes = match size.checked_mul(MEGABYTE) {
        Some(bytes) => bytes,
        None => usize::MAX,
    };
    proof {
        if part_bytes != size * MEGABYTE {
            assert(buffer@.len() == vstd::slice::spec_slice_len(buffer));
            lemma_one_part(buffer@, part_bytes as int, size * MEGABYTE);
        }
    }
    let digests = collect_part_digests(buffer, part_bytes);
    let digest = digest_bytes(digests.as_slice());
    let mut tag = to_hex(digest.as_slice());
    tag.push(DASH);
    let count = to_decimal(chunks);
    append_bytes(&mut tag, count.as_slice());
    tag
}

/// Tells whether parts of `size` megabytes reproduce `etag`.
pub fn compute(size: usize, chunks: usize, buffer: &[u8], etag: &[u8]) -> (matched: bool)
    ensures
        matched == candidate_matches(buffer@, etag@, chunks as nat, size as nat),
{
    if size == 0 {
        return false;
    }
    let tag = composite_tag(size, chunks, buffer);
    bytes_equal(tag.as_slice(), etag)
}

/// Tells whether `etag` is the tag of `buffer` uploaded in one piece.
pub fn compute_simple(buffer: &[u8], etag: &[u8]) -> (matched: bool)
    ensures
        matched == simple_tag_matches(buffer@, etag@),
{
    let digest = digest_bytes(buffer);
    let mut text = to_hex(digest.as_slice());
    if bytes_equal(text.as_slice(), etag) {
        return true;
    }
    text.push(DASH);
    let count = to_decimal(1);
    append_bytes(&mut text, count.as_slice());
    assert(text@ =~= hex_lower(md5_digest(buffer@)) + seq![DASH] + decimal(1));
    bytes_equal(text.as_slice(), etag)
}

} // verus!
