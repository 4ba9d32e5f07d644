//! The format classifier: which numeric shape a piece of text has.

use vstd::prelude::*;
use vstd::string::StrSliceExecFns;
use crate::digits::{is_dec_digit, is_hex_digit, check_dec_digit, check_hex_digit};

verus! {

/// The decimal shape: one or more decimal digits and nothing else.
pub open spec fn decimal_shape(s: Seq<char>) -> bool {
    s.len() >= 1 && forall|i: int| 0 <= i < s.len() ==> is_dec_digit(#[trigger] s[i])
}

/// One or more hexadecimal digits and nothing else (no `0x` prefix).
pub open spec fn hex_digits_shape(s: Seq<char>) -> bool {
    s.len() >= 1 && forall|i: int| 0 <= i < s.len() ==> is_hex_digit(#[trigger] s[i])
}

/// The strict hexadecimal shape: the whole text is `0x` followed by one or
/// more hexadecimal digits.
pub open spec fn hex_strict_shape(s: Seq<char>) -> bool {
    s.len() >= 3 && s[0] == '0' && s[1] == 'x' && hex_digits_shape(s.skip(2))
}

/// The text begins with the hexadecimal marker: `0x` and then at least one
/// hexadecimal digit. Characters after the third are not constrained.
pub open spec fn hex_prefix_shape(s: Seq<char>) -> bool {
    s.len() >= 3 && s[0] == '0' && s[1] == 'x' && is_hex_digit(s[2])
}

/// The loose hexadecimal shape: the text contains, anywhere, `0x` followed
/// by at least one hexadecimal digit.
pub open spec fn hex_loose_shape(s: Seq<char>) -> bool {
    exists|i: int|
        0 <= i && i + 3 <= s.len() && #[trigger] s[i] == '0' && s[i + 1] == 'x' && is_hex_digit(
            s[i + 2],
        )
}

/// A loose hexadecimal match whose digit part (everything after the first two
/// characters) consists of hexadecimal digits only can only be anchored at the
/// start of the text: the marker `0x` itself contains no hexadecimal digit.
pub proof fn lemma_loose_match_anchored(s: Seq<char>)
    requires
        hex_loose_shape(s),
        hex_digits_shape(s.skip(2)),
    ensures
        hex_prefix_shape(s),
{
    let i = choose|i: int|
        0 <= i && i + 3 <= s.len() && #[trigger] s[i] == '0' && s[i + 1] == 'x' && is_hex_digit(
            s[i + 2],
        );
    assert(!is_hex_digit('x'));
    if i >= 2 {
        assert(s.skip(2)[i - 1] == s[i + 1]);
        assert(is_hex_digit(s[i + 1]));
        assert(false);
    } else if i == 1 {
        assert(s.skip(2)[0] == s[2]);
        assert(is_hex_digit(s[2]));
        assert(false);
    }
}

/// Decide the decimal shape.
pub fn decimal_test(text: &str) -> (b: bool)
    ensures
        b == decimal_shape(text@),
{
    let len = text.unicode_len();
    if len == 0 {
        return false;
    }
    let mut i: usize = 0;
    while i < len
        invariant
            0 <= i <= len,
            len == text@.len(),
            forall|j: int| 0 <= j < i ==> is_dec_digit(#[trigger] text@[j]),
        decreases len - i,
    {
        if !check_dec_digit(text.get_char(i)) {
            return false;
        }
        i += 1;
    }
    true
}

/// Decide whether the text is hexadecimal digits only (no prefix).
pub fn hex_digits_test(text: &str) -> (b: bool)
    ensures
        b == hex_digits_shape(text@),
{
    let len = text.unicode_len();
    if len == 0 {
        return false;
    }
    let mut i: usize = 0;
    while i < len
        invariant
            0 <= i <= len,
            len == text@.len(),
            forall|j: int| 0 <= j < i ==> is_hex_digit(#[trigger] text@[j]),
        decreases len - i,
    {
        if !check_hex_digit(text.get_char(i)) {
            return false;
        }
        i += 1;
    }
    true
}

/// Decide the strict hexadecimal shape.
pub fn hex_strict_test(text: &str) -> (b: bool)
    ensures
        b == hex_strict_shape(text@),
{
    let len = text.unicode_len();
    if len < 3 {
        return false;
    }
    if text.get_char(0) != '0' || text.get_char(1) != 'x' {
        return false;
    }
    let digits = text.substring_char(2, len);
    hex_digits_test(digits)
}

/// Decide whether the text begins with the hexadecimal marker.
pub fn hex_prefix_test(text: &str) -> (b: bool)
    ensures
        b == hex_prefix_shape(text@),
{
    let len = text.unicode_len();
    if len < 3 {
        return false;
    }
    text.get_char(0) == '0' && text.get_char(1) == 'x' && check_hex_digit(text.get_char(2))
}

/// Decide the loose hexadecimal shape: search for a marker anywhere.
pub fn hex_loose_test(text: &str) -> (b: bool)
    ensures
        b == hex_loose_shape(text@),
{
    let len = text.unicode_len();
    if len < 3 {
        return false;
    }
    let mut i: usize = 0;
    while i <= len - 3
        invariant
            3 <= len,
            i <= len - 2,
            len == text@.len(),
            forall|j: int|
                0 <= j < i ==> !(#[trigger] text@[j] == '0' && text@[j + 1] == 'x' && is_hex_digit(
                    text@[j + 2],
                )),
        decreases len - i,
    {
        if text.get_char(i) == '0' && text.get_char(i + 1) == 'x' && check_hex_digit(
            text.get_char(i + 2),
        ) {
            return true;
        }
        i += 1;
    }
    false
}

} // verus!
