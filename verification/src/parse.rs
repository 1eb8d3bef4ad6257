//! The move-request grammar: ASCII decimal digits, optionally followed by a
//! single trailing line terminator, naming an unsigned position.
//!
//! A payload that does not fit that grammar, or names a number too large for
//! the position type, is a [`ParseError`] — distinct from a rejected move.

use vstd::prelude::*;

verus! {

use vstd::string::StringExecFns;

/// Why a payload failed to parse as a position.
#[derive(Clone, Copy, Debug, PartialEq, Eq, Structural)]
pub enum ParseError {
    /// Nothing was left once the trailing line terminator was stripped.
    Empty,
    /// A byte other than an ASCII decimal digit.
    InvalidDigit,
    /// The digits name a number that does not fit the position type.
    TooLarge,
}

/// The payload with one trailing line feed stripped, when one is there.
pub open spec fn strip_newline(p: Seq<u8>) -> Seq<u8> {
    if p.len() > 0 && p.last() == 10 {
        p.drop_last()
    } else {
        p
    }
}

/// Whether `c` is an ASCII decimal digit.
pub open spec fn is_digit(c: u8) -> bool {
    48 <= c <= 57
}

/// Whether every byte of `s` is an ASCII decimal digit.
pub open spec fn all_digits(s: Seq<u8>) -> bool {
    forall|i: int| 0 <= i < s.len() ==> is_digit(#[trigger] s[i])
}

/// The number the digit bytes of `s` spell, most significant first.
pub open spec fn digits_val(s: Seq<u8>) -> int
    decreases s.len(),
{
    if s.len() == 0 {
        0
    } else {
        10 * digits_val(s.drop_last()) + (s.last() - 48)
    }
}

/// What a payload parses to: the position its digits spell, or the first
/// reason it is rejected — emptiness, then a non-digit byte, then overflow.
pub open spec fn spec_parse(p: Seq<u8>) -> Result<u8, ParseError> {
    let s = strip_newline(p);
    if s.len() == 0 {
        Err(ParseError::Empty)
    } else if !all_digits(s) {
        Err(ParseError::InvalidDigit)
    } else if digits_val(s) > 255 {
        Err(ParseError::TooLarge)
    } else {
        Ok(digits_val(s) as u8)
    }
}

/// A string of digits spells a nonnegative number.
proof fn lemma_digits_val_nonneg(s: Seq<u8>)
    requires
        all_digits(s),
    ensures
        digits_val(s) >= 0,
    decreases s.len(),
{
    if s.len() > 0 {
        assert(all_digits(s.drop_last())) by {
            assert(forall|i: int|
                0 <= i < s.len() - 1 ==> s.drop_last()[i] == #[trigger] s[i]);
        }
        lemma_digits_val_nonneg(s.drop_last());
    }
}

/// Every prefix of a digit string spells at most what the whole spells.
proof fn lemma_digits_val_prefix_le(s: Seq<u8>, k: int)
    requires
        all_digits(s),
        0 <= k <= s.len(),
    ensures
        digits_val(s.take(k)) <= digits_val(s),
    decreases s.len() - k,
{
    if k == s.len() {
        assert(s.take(k) =~= s);
    } else {
        assert(s.take(k + 1).drop_last() =~= s.take(k));
        assert(s.take(k + 1).last() == s[k]);
        assert(all_digits(s.take(k))) by {
            assert(forall|i: int| 0 <= i < k ==> s.take(k)[i] == #[trigger] s[i]);
        }
        lemma_digits_val_nonneg(s.take(k));
        assert(digits_val(s.take(k + 1)) == 10 * digits_val(s.take(k)) + (s[k] - 48));
        lemma_digits_val_prefix_le(s, k + 1);
    }
}

/// Parses a datagram payload as a 1-indexed position request.
///
/// Strips one trailing line feed if present; what remains must be one or
/// more ASCII decimal digits spelling a number that fits the position type.
/// Any other byte — including anything that is not ASCII text — is rejected.
pub fn parse_pos(payload: &Vec<u8>) -> (r: Result<u8, ParseError>)
    ensures
        r == spec_parse(payload@),
{
    let n = payload.len();
    let end = if n > 0 && payload[n - 1] == 10 {
        n - 1
    } else {
        n
    };
    let ghost s = strip_newline(payload@);
    proof {
        assert(s =~= payload@.take(end as int));
    }
    if end == 0 {
        return Err(ParseError::Empty);
    }
    let mut i: usize = 0;
    while i < end
        invariant
            i <= end,
            end <= payload@.len(),
            end > 0,
            s == strip_newline(payload@),
            s == payload@.take(end as int),
            forall|j: int| 0 <= j < i ==> is_digit(#[trigger] s[j]),
        decreases end - i,
    {
        let c = payload[i];
        if c < 48 || c > 57 {
            assert(s[i as int] == c);
            assert(!all_digits(s));
            return Err(ParseError::InvalidDigit);
        }
        i += 1;
    }
    assert(all_digits(s));
    let mut val: u32 = 0;
    let mut i: usize = 0;
    while i < end
        invariant
            i <= end,
            end <= payload@.len(),
            end > 0,
            s == strip_newline(payload@),
            s == payload@.take(end as int),
            all_digits(s),
            val <= 255,
            val == digits_val(s.take(i as int)),
        decreases end - i,
    {
        let c = payload[i];
        proof {
            assert(payload@.take(end as int)[i as int] == payload@[i as int]);
            assert(s[i as int] == c);
            assert(is_digit(s[i as int]));
        }
        let next = val * 10 + (c - 48) as u32;
        proof {
            assert(s.take(i + 1).drop_last() =~= s.take(i as int));
            assert(s.take(i + 1).last() == s[i as int]);
            assert(next == digits_val(s.take(i + 1)));
        }
        if next > 255 {
            proof {
                lemma_digits_val_prefix_le(s, i + 1);
            }
            return Err(ParseError::TooLarge);
        }
        val = next;
        i += 1;
    }
    proof {
        assert(s.take(end as int) =~= s);
    }
    Ok(val as u8)
}

/// The failure's description, as it is reported back to the sender.
pub open spec fn parse_error_text(e: ParseError) -> Seq<char> {
    match e {
        ParseError::Empty => "cannot parse integer from empty string"@,
        ParseError::InvalidDigit => "invalid digit found in string"@,
        ParseError::TooLarge => "number too large to fit in target type"@,
    }
}

impl ParseError {
    /// The failure's description text.
    pub fn message(&self) -> (r: String)
        ensures
            r@ == parse_error_text(*self),
    {
        match self {
            ParseError::Empty => String::from_str("cannot parse integer from empty string"),
            ParseError::InvalidDigit => String::from_str("invalid digit found in string"),
            ParseError::TooLarge => String::from_str("number too large to fit in target type"),
        }
    }
}

} // verus!
