//! MD5 digests and their lower-case hexadecimal text.

use crate::decimal::ZERO;
use vstd::prelude::*;

verus! {

/// The MD5 digest of `data`, as the `md5` crate computes it. The function
/// has no definition here: all that is known of it is that equal data have
/// equal digests.
pub uninterp spec fn md5_digest(data: Seq<u8>) -> Seq<u8>;

/// ASCII code of the letter `a`.
pub const LOWER_A: u8 = 97;

/// The ASCII code of the lower-case hexadecimal digit for `nibble`: `0` to
/// `9`, then `a` to `f`.
pub open spec fn hex_digit(nibble: int) -> u8
    recommends
        0 <= nibble < 16,
{
    if nibble < 10 {
        (ZERO + nibble) as u8
    } else {
        (LOWER_A + nibble - 10) as u8
    }
}

/// Lower-case hexadecimal text of `bytes`: two digits for each byte, the high
/// nibble first.
pub open spec fn hex_lower(bytes: Seq<u8>) -> Seq<u8> {
    Seq::new(
        2 * bytes.len(),
        |i: int|
            if i % 2 == 0 {
                hex_digit(bytes[i / 2] as int / 16)
            } else {
                hex_digit(bytes[i / 2] as int % 16)
            },
    )
}

/// Calls `md5::compute` on `data` and hands out the sixteen bytes of the
/// `Digest` it returns. That function takes any input and does not panic.
/// The contract is believed, not proved: it only gives the result its name,
/// and says nothing of MD5 itself.
#[verifier::external_body]
fn md5_compute(data: &[u8]) -> (digest: [u8; 16])
    ensures
        digest@ == md5_digest(data@),
{
    md5::compute(data).0
}

/// The MD5 digest of `data` as a vector of sixteen bytes.
pub fn digest_bytes(data: &[u8]) -> (out: Vec<u8>)
    ensures
        out@ == md5_digest(data@),
        out@.len() == 16,
{
    let digest = md5_compute(data);
    let mut out: Vec<u8> = Vec::with_capacity(16);
    let mut i: usize = 0;
    while i < 16
        invariant
            i <= 16,
            out@ == digest@.take(i as int),
        decreases 16 - i,
    {
        out.push(digest[i]);
        i += 1;
    }
    out
}

fn hex_digit_of(nibble: u8) -> (c: u8)
    requires
        nibble < 16,
    ensures
        c == hex_digit(nibble as int),
{
    if nibble < 10 {
        ZERO + nibble
    } else {
        LOWER_A + (nibble - 10)
    }
}

/// Writes `bytes` as lower-case hexadecimal text.
pub fn to_hex(bytes: &[u8]) -> (text: Vec<u8>)
    ensures
        text@ == hex_lower(bytes@),
{
    let mut text: Vec<u8> = Vec::new();
    let mut i: usize = 0;
    while i < bytes.len()
        invariant
            i <= bytes.len(),
            text@.len() == 2 * i,
            forall|k: int| 0 <= k < text@.len() ==> text@[k] == hex_lower(bytes@)[k],
        decreases bytes.len() - i,
    {
        let b = bytes[i];
        text.push(hex_digit_of(b / 16));
        text.push(hex_digit_of(b % 16));
        i += 1;
    }
    text
}

} // verus!
