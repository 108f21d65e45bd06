//! The part sizes that a file size and a part count allow.

use vstd::prelude::*;

verus! {

/// Bytes in one megabyte, the unit in which part sizes are counted.
pub const MEGABYTE: usize = 1_048_576;

/// The part sizes, in whole megabytes, that a search tries.
#[derive(Debug, Clone, Copy, PartialEq, Eq, Structural)]
pub enum CandidateSize {
    /// One size only.
    Fixed(usize),
    /// Every size from the first bound to the second, both included.
    Range(usize, usize),
}

impl CandidateSize {
    /// Whether the search tries `size`.
    pub open spec fn contains(self, size: nat) -> bool {
        match self {
            CandidateSize::Fixed(only) => size == only,
            CandidateSize::Range(min, max) => min <= size <= max,
        }
    }
}

/// Whole megabytes in `byte_length` bytes.
pub open spec fn whole_megabytes(byte_length: nat) -> nat {
    byte_length / (MEGABYTE as nat)
}

/// The number of parts that `byte_length` bytes make when each part but the
/// last holds `part_bytes` bytes and the last holds what is left.
pub open spec fn parts_needed(byte_length: nat, part_bytes: nat) -> nat
    recommends
        part_bytes > 0,
{
    ((byte_length + part_bytes - 1) / (part_bytes as int)) as nat
}

/// The smallest part size that fills `part_count` parts.
pub open spec fn min_size(file_size_mb: nat, part_count: nat) -> nat
    recommends
        part_count >= 2,
{
    file_size_mb / part_count
}

/// The largest part size that still leaves something for the last part.
pub open spec fn max_size(file_size_mb: nat, part_count: nat) -> nat
    recommends
        part_count >= 2,
{
    file_size_mb / ((part_count - 1) as nat)
}

/// The candidates for a file of `file_size_mb` whole megabytes in
/// `part_count` parts: one size where both bounds meet, else all sizes
/// between them.
pub open spec fn candidate_range_spec(file_size_mb: usize, part_count: usize) -> CandidateSize
    recommends
        part_count >= 2,
{
    let min = min_size(file_size_mb as nat, part_count as nat);
    let max = max_size(file_size_mb as nat, part_count as nat);
    if min == max {
        CandidateSize::Fixed(min as usize)
    } else {
        CandidateSize::Range(min as usize, max as usize)
    }
}

/// The lower bound never exceeds the upper one, and neither exceeds the file
/// size.
pub proof fn lemma_bounds_ordered(file_size_mb: nat, part_count: nat)
    requires
        part_count >= 2,
    ensures
        min_size(file_size_mb, part_count) <= max_size(file_size_mb, part_count),
        max_size(file_size_mb, part_count) <= file_size_mb,
{
    let n = part_count as int;
    let f = file_size_mb as int;
    assert(f / n <= f / (n - 1)) by (nonlinear_arith)
        requires
            n >= 2,
            f >= 0,
    ;
    assert(f / (n - 1) <= f) by (nonlinear_arith)
        requires
            n >= 2,
            f >= 0,
    ;
}

/// The part size that produced a file lies between the two bounds: if
/// `byte_length` bytes were uploaded in `part_count` parts of `size`
/// megabytes, the last part holding what was left, then `size` is one of the
/// candidates derived from the file size and the part count.
pub proof fn lemma_true_size_in_bounds(byte_length: nat, part_count: nat, size: nat)
    requires
        part_count >= 2,
        size >= 1,
        parts_needed(byte_length, size * (MEGABYTE as nat)) == part_count,
    ensures
        min_size(whole_megabytes(byte_length), part_count) <= size,
        size <= max_size(whole_megabytes(byte_length), part_count),
{
    let mb = MEGABYTE as int;
    let len = byte_length as int;
    let n = part_count as int;
    let s = size as int;
    let c = s * mb;
    let f = len / mb;
    assert(c >= mb) by (nonlinear_arith)
        requires
            c == s * mb,
            s >= 1,
            mb > 0,
    ;
    // The part count pins the length between two multiples of the part size.
    assert((n - 1) * c < len <= n * c) by (nonlinear_arith)
        requires
            (len + c - 1) / c == n,
            c > 0,
            len >= 0,
    ;
    // In whole megabytes the same holds with the size itself.
    assert((n - 1) * s <= f <= n * s) by (nonlinear_arith)
        requires
            (n - 1) * c < len <= n * c,
            c == s * mb,
            f == len / mb,
            mb > 0,
    ;
    assert(f / n <= s) by (nonlinear_arith)
        requires
            f <= n * s,
            n >= 2,
            f >= 0,
    ;
    assert(s <= f / (n - 1)) by (nonlinear_arith)
        requires
            (n - 1) * s <= f,
            n >= 2,
    ;
}

/// Derives the candidate part sizes from the file size in whole megabytes and
/// the part count of the tag.
pub fn candidate_range(file_size_mb: usize, part_count: usize) -> (candidates: CandidateSize)
    requires
        part_count >= 2,
    ensures
        candidates == candidate_range_spec(file_size_mb, part_count),
        candidates matches CandidateSize::Range(min, max) ==> min < max,
{
    proof {
        lemma_bounds_ordered(file_size_mb as nat, part_count as nat);
    }
    let min = file_size_mb / part_count;
    let max = file_size_mb / (part_count - 1);
    if min == max {
        CandidateSize::Fixed(min)
    } else {
        CandidateSize::Range(min, max)
    }
}

} // verus!
