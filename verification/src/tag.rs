//! The published tag and its parts.

use crate::decimal::{all_digits, parse_usize, parse_usize_spec};
use crate::digest::hex_lower;
use crate::error::EtagError;
use vstd::prelude::*;
use vstd::slice::{slice_subrange, slice_to_vec};

verus! {

/// ASCII code of the dash that parts a tag's digest from its part count.
pub const DASH: u8 = 45;

/// A tag as the object store publishes it: the digest text and the number of
/// parts that the object was uploaded in.
#[derive(Debug, Clone, PartialEq, Eq)]
pub struct PublishedTag {
    /// The text before the dash, or the whole tag where it has none.
    pub digest: Vec<u8>,
    /// The number after the dash, or one where the tag has no dash.
    pub part_count: usize,
}

/// What a `PublishedTag` stands for.
pub struct TagModel {
    pub digest: Seq<u8>,
    pub part_count: nat,
}

impl View for PublishedTag {
    type V = TagModel;

    open spec fn view(&self) -> TagModel {
        TagModel { digest: self.digest@, part_count: self.part_count as nat }
    }
}

impl PublishedTag {
    /// What the parser gives: at least one part, and a digest without a
    /// dash.
    pub open spec fn wf(&self) -> bool {
        &&& self.part_count >= 1
        &&& separators(self.digest@) == 0
    }
}

/// The number of dashes in `tag`.
pub open spec fn separators(tag: Seq<u8>) -> nat
    decreases tag.len(),
{
    if tag.len() == 0 {
        0
    } else {
        separators(tag.drop_last()) + if tag.last() == DASH {
            1nat
        } else {
            0nat
        }
    }
}

/// Whether `at` is the place of the first dash in `tag`.
pub open spec fn is_first_separator(tag: Seq<u8>, at: int) -> bool {
    &&& 0 <= at < tag.len()
    &&& tag[at] == DASH
    &&& forall|j: int| 0 <= j < at ==> tag[j] != DASH
}

/// The place of the first dash in `tag`, where it has one.
pub open spec fn first_separator(tag: Seq<u8>) -> int {
    choose|at: int| is_first_separator(tag, at)
}

/// What `tag` says. A tag without a dash is the digest of an object that was
/// uploaded in one part. A tag with one dash holds the digest before it and
/// the part count after it, a number above one that fits the machine word.
/// Every other tag is invalid.
pub open spec fn parse_tag_spec(tag: Seq<u8>) -> Result<TagModel, EtagError> {
    if separators(tag) == 0 {
        Ok(TagModel { digest: tag, part_count: 1 })
    } else if separators(tag) == 1 {
        let at = first_separator(tag);
        match parse_usize_spec(tag.skip(at + 1)) {
            Some(count) => if count > 1 {
                Ok(TagModel { digest: tag.take(at), part_count: count as nat })
            } else {
                Err(EtagError::InvalidTagFormat)
            },
            None => Err(EtagError::InvalidTagFormat),
        }
    } else {
        Err(EtagError::InvalidTagFormat)
    }
}

/// A text has no dash exactly when none of its bytes is one.
pub proof fn lemma_separators_zero(tag: Seq<u8>)
    ensures
        separators(tag) == 0 <==> forall|i: int| 0 <= i < tag.len() ==> tag[i] != DASH,
    decreases tag.len(),
{
    if tag.len() > 0 {
        let shorter = tag.drop_last();
        lemma_separators_zero(shorter);
        if separators(tag) == 0 {
            assert forall|i: int| 0 <= i < tag.len() implies tag[i] != DASH by {
                if i < shorter.len() {
                    assert(shorter[i] == tag[i]);
                }
            }
        }
    }
}

/// The dashes of a text made of two pieces are those of the pieces.
pub proof fn lemma_separators_concat(head: Seq<u8>, tail: Seq<u8>)
    ensures
        separators(head + tail) == separators(head) + separators(tail),
    decreases tail.len(),
{
    if tail.len() > 0 {
        lemma_separators_concat(head, tail.drop_last());
        assert((head + tail).drop_last() =~= head + tail.drop_last());
    }
}

/// Hexadecimal text holds no dash.
pub proof fn lemma_hex_has_no_separator(bytes: Seq<u8>)
    ensures
        separators(hex_lower(bytes)) == 0,
{
    lemma_separators_zero(hex_lower(bytes));
}

/// A run of digits holds no dash.
pub proof fn lemma_digits_have_no_separator(text: Seq<u8>)
    requires
        all_digits(text),
    ensures
        separators(text) == 0,
{
    lemma_separators_zero(text);
}

/// A text has one first dash at most.
pub proof fn lemma_first_separator_unique(tag: Seq<u8>, at: int)
    requires
        is_first_separator(tag, at),
    ensures
        first_separator(tag) == at,
{
    let chosen = first_separator(tag);
    assert(is_first_separator(tag, chosen));
    if chosen < at {
        assert(tag[chosen] != DASH);
    }
    if at < chosen {
        assert(tag[at] != DASH);
    }
}

/// Reads a published tag.
pub fn parse_tag(tag: &[u8]) -> (parsed: Result<PublishedTag, EtagError>)
    ensures
        match parsed {
            Ok(published) => parse_tag_spec(tag@) == Ok::<TagModel, EtagError>(published@)
                && published.wf(),
            Err(error) => parse_tag_spec(tag@) == Err::<TagModel, EtagError>(error),
        },
{
    let mut count: usize = 0;
    let mut first: usize = 0;
    let mut i: usize = 0;
    while i < tag.len()
        invariant
            i <= tag.len(),
            count <= i,
            count == separators(tag@.take(i as int)),
            count > 0 ==> is_first_separator(tag@, first as int) && first < i,
        decreases tag.len() - i,
    {
        proof {
            assert(tag@.take(i + 1).drop_last() =~= tag@.take(i as int));
            if count == 0 {
                lemma_separators_zero(tag@.take(i as int));
                assert forall|j: int| 0 <= j < i implies tag@[j] != DASH by {
                    assert(tag@.take(i as int)[j] == tag@[j]);
                }
            }
        }
        if tag[i] == DASH {
            if count == 0 {
                first = i;
            }
            count += 1;
        }
        i += 1;
    }
    assert(tag@.take(i as int) =~= tag@);
    if count == 0 {
        let digest = slice_to_vec(tag);
        Ok(PublishedTag { digest, part_count: 1 })
    } else if count == 1 {
        proof {
            lemma_first_separator_unique(tag@, first as int);
        }
        let rest = slice_subrange(tag, first + 1, tag.len());
        match parse_usize(rest) {
            Some(part_count) => {
                if part_count > 1 {
                    let head = slice_subrange(tag, 0, first);
                    proof {
                        lemma_separators_zero(head@);
                    }
                    let digest = slice_to_vec(head);
                    Ok(PublishedTag { digest, part_count })
                } else {
                    Err(EtagError::InvalidTagFormat)
                }
            },
            None => Err(EtagError::InvalidTagFormat),
        }
    } else {
        Err(EtagError::InvalidTagFormat)
    }
}

} // verus!
