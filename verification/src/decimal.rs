//! Decimal text of unsigned integers: writing it and reading it back.

use vstd::prelude::*;

verus! {

/// ASCII code of the digit zero.
pub const ZERO: u8 = 48;

/// ASCII code of the digit nine.
pub const NINE: u8 = 57;

/// ASCII code of the plus sign.
pub const PLUS: u8 = 43;

/// Whether `c` is the ASCII code of a decimal digit.
pub open spec fn is_digit(c: u8) -> bool {
    ZERO <= c <= NINE
}

/// Whether every byte of `text` is a decimal digit.
pub open spec fn all_digits(text: Seq<u8>) -> bool {
    forall|i: int| 0 <= i < text.len() ==> is_digit(#[trigger] text[i])
}

/// The number that the digits of `text` spell, the most significant first.
pub open spec fn digits_value(text: Seq<u8>) -> nat
    decreases text.len(),
{
    if text.len() == 0 {
        0
    } else {
        (digits_value(text.drop_last()) * 10 + (text.last() - ZERO)) as nat
    }
}

/// The shortest decimal text of `n`.
pub open spec fn decimal(n: nat) -> Seq<u8>
    decreases n,
{
    if n < 10 {
        seq![(ZERO + n) as u8]
    } else {
        decimal(n / 10).push((ZERO + n % 10) as u8)
    }
}

/// The digits of `text` once an optional leading plus sign is taken off.
pub open spec fn unsigned_part(text: Seq<u8>) -> Seq<u8> {
    if text.len() > 0 && text[0] == PLUS {
        text.skip(1)
    } else {
        text
    }
}

/// The number that `text` denotes: an optional plus sign, then one decimal
/// digit or more, and nothing else. Any other text denotes no number.
pub open spec fn parse_decimal(text: Seq<u8>) -> Option<nat> {
    let digits = unsigned_part(text);
    if digits.len() > 0 && all_digits(digits) {
        Some(digits_value(digits))
    } else {
        None
    }
}

/// A longer run of digits spells a number that is at least as large as the one
/// its prefix spells.
pub proof fn lemma_digits_value_prefix(text: Seq<u8>, k: int)
    requires
        all_digits(text),
        0 <= k <= text.len(),
    ensures
        digits_value(text.take(k)) <= digits_value(text),
    decreases text.len(),
{
    if k == text.len() {
        assert(text.take(k) =~= text);
    } else {
        let shorter = text.drop_last();
        assert(all_digits(shorter)) by {
            assert forall|i: int| 0 <= i < shorter.len() implies is_digit(
                #[trigger] shorter[i],
            ) by {
                assert(shorter[i] == text[i]);
            }
        }
        lemma_digits_value_prefix(shorter, k);
        assert(shorter.take(k) =~= text.take(k));
    }
}

/// The decimal text of a number holds digits only, at least one of them, and
/// spells that number.
pub proof fn lemma_decimal_round_trip(n: nat)
    ensures
        decimal(n).len() > 0,
        all_digits(decimal(n)),
        digits_value(decimal(n)) == n,
        parse_decimal(decimal(n)) == Some(n),
    decreases n,
{
    if n < 10 {
        assert(digits_value(decimal(n).drop_last()) == 0);
    } else {
        lemma_decimal_round_trip(n / 10);
        assert(decimal(n).drop_last() =~= decimal(n / 10));
    }
}

/// The number that `text` denotes, where it fits the machine word.
pub open spec fn parse_usize_spec(text: Seq<u8>) -> Option<usize> {
    match parse_decimal(text) {
        Some(value) => if value <= usize::MAX {
            Some(value as usize)
        } else {
            None
        },
        None => None,
    }
}

/// Reads a number from `text`: an optional plus sign, then decimal digits
/// only. Gives `None` for any other text and for a number beyond `usize::MAX`.
pub fn parse_usize(text: &[u8]) -> (parsed: Option<usize>)
    ensures
        parsed == parse_usize_spec(text@),
{
    let start: usize = if text.len() > 0 && text[0] == PLUS {
        1
    } else {
        0
    };
    let ghost digits = unsigned_part(text@);
    if start == text.len() {
        return None;
    }
    let mut value: usize = 0;
    let mut i: usize = start;
    while i < text.len()
        invariant
            start <= i <= text.len(),
            digits == text@.skip(start as int),
            digits == unsigned_part(text@),
            digits.len() > 0,
            all_digits(digits.take(i - start)),
            value == digits_value(digits.take(i - start)),
        decreases text.len() - i,
    {
        let c = text[i];
        if c < ZERO || c > NINE {
            assert(!is_digit(digits[i - start]));
            return None;
        }
        let ghost longer = digits.take(i - start + 1);
        assert(longer.drop_last() =~= digits.take(i - start));
        let next = match value.checked_mul(10) {
            Some(tens) => tens.checked_add((c - ZERO) as usize),
            None => None,
        };
        match next {
            Some(v) => {
                value = v;
            },
            None => {
                proof {
                    if all_digits(digits) {
                        lemma_digits_value_prefix(digits, i - start + 1);
                    }
                }
                return None;
            },
        }
        i += 1;
    }
    assert(digits.take(i - start) =~= digits);
    Some(value)
}

/// Writes `n` in decimal.
pub fn to_decimal(n: usize) -> (text: Vec<u8>)
    ensures
        text@ == decimal(n as nat),
{
    let mut reversed: Vec<u8> = Vec::new();
    let mut rest: usize = n;
    while rest >= 10
        invariant
            decimal(rest as nat) + reversed@.reverse() == decimal(n as nat),
        decreases rest,
    {
        reversed.push(ZERO + (rest % 10) as u8);
        rest = rest / 10;
    }
    reversed.push(ZERO + rest as u8);
    let mut text: Vec<u8> = Vec::new();
    let mut i: usize = reversed.len();
    while i > 0
        invariant
            i <= reversed.len(),
            text@ == reversed@.reverse().take(reversed.len() - i),
        decreases i,
    {
        i -= 1;
        text.push(reversed[i]);
    }
    text
}

} // verus!
