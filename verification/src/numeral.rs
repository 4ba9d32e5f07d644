//! Numerals: the value of a digit string, the canonical digit string of a
//! value, and the verified parsing and formatting built on them.

use vstd::prelude::*;
use vstd::string::{StrSliceExecFns, StringExecFns};
use vstd::arithmetic::div_mod::{lemma_div_is_strictly_smaller, lemma_fundamental_div_mod};
use vstd::arithmetic::mul::{lemma_mul_inequality, lemma_mul_is_commutative};
use crate::digits::{
    check_dec_digit, check_hex_digit, digit_char, digit_ok, digit_str, digit_val, digit_value,
    is_dec_digit, is_hex_digit, lemma_dec_digit_ok, lemma_digit_char_val,
};
use crate::classify::{decimal_shape, hex_digits_shape};

verus! {

/// The numeric value of a digit string read in the given base, most
/// significant digit first.
pub open spec fn value_of(s: Seq<char>, base: nat) -> nat
    decreases s.len(),
{
    if s.len() == 0 {
        0
    } else {
        value_of(s.drop_last(), base) * base + digit_val(s.last())
    }
}

/// The value of decimal text.
pub open spec fn dec_value(s: Seq<char>) -> nat {
    value_of(s, 10)
}

/// The value of hexadecimal text (digits only, no `0x` prefix).
pub open spec fn hex_value(s: Seq<char>) -> nat {
    value_of(s, 16)
}

/// The digits of a value in a base, empty for zero: the minimal-width
/// rendering, with no leading zero.
pub open spec fn digits_of(n: nat, base: nat) -> Seq<char>
    decreases n,
    when base >= 2
    via digits_of_decreases
{
    if n == 0 {
        Seq::empty()
    } else {
        digits_of(n / base, base).push(digit_char(n % base))
    }
}

#[via_fn]
proof fn digits_of_decreases(n: nat, base: nat) {
    if n > 0 {
        lemma_div_is_strictly_smaller(n as int, base as int);
    }
}

/// The canonical textual numeral of a value: `0` for zero, otherwise the
/// minimal-width digits.
pub open spec fn string_of(n: nat, base: nat) -> Seq<char> {
    if n == 0 {
        seq!['0']
    } else {
        digits_of(n, base)
    }
}

/// The canonical decimal text of a value.
pub open spec fn dec_string_of(n: nat) -> Seq<char> {
    string_of(n, 10)
}

/// The canonical hexadecimal digits of a value, uppercase, without prefix.
pub open spec fn hex_string_of(n: nat) -> Seq<char> {
    string_of(n, 16)
}

/// The full hexadecimal rendering: `0x`, then the canonical digits.
pub open spec fn hex_formatted(n: nat) -> Seq<char> {
    seq!['0', 'x'] + hex_string_of(n)
}

/// Reading one more digit multiplies the value so far by the base and adds
/// that digit.
proof fn lemma_value_of_take_step(s: Seq<char>, base: nat, i: int)
    requires
        0 <= i < s.len(),
    ensures
        value_of(s.take(i + 1), base) == value_of(s.take(i), base) * base + digit_val(s[i]),
{
    assert(s.take(i + 1).drop_last() =~= s.take(i));
    assert(s.take(i + 1).last() == s[i]);
}

/// A prefix of a digit string never exceeds the value of the whole string.
proof fn lemma_value_of_take_le(s: Seq<char>, base: nat, i: int)
    requires
        1 <= base,
        0 <= i <= s.len(),
    ensures
        value_of(s.take(i), base) <= value_of(s, base),
    decreases s.len() - i,
{
    if i == s.len() {
        assert(s.take(i) =~= s);
    } else {
        lemma_value_of_take_step(s, base, i);
        lemma_mul_inequality(1, base as int, value_of(s.take(i), base) as int);
        lemma_value_of_take_le(s, base, i + 1);
    }
}

/// The canonical digits of a value are valid digits of the base and read
/// back as that value.
proof fn lemma_digits_of_value(n: nat, base: nat)
    requires
        2 <= base <= 16,
    ensures
        value_of(digits_of(n, base), base) == n,
        forall|i: int|
            0 <= i < digits_of(n, base).len() ==> digit_ok(#[trigger] digits_of(n, base)[i], base),
        n > 0 ==> digits_of(n, base).len() >= 1,
    decreases n,
{
    if n > 0 {
        lemma_div_is_strictly_smaller(n as int, base as int);
        lemma_digits_of_value(n / base, base);
        lemma_digit_char_val(n % base);
        let s = digits_of(n, base);
        let t = digits_of(n / base, base);
        assert(s.drop_last() =~= t);
        assert(s.last() == digit_char(n % base));
        assert(value_of(s, base) == (n / base) * base + (n % base));
        assert((n / base) * base + (n % base) == n) by {
            lemma_fundamental_div_mod(n as int, base as int);
            lemma_mul_is_commutative(n as int / base as int, base as int);
        };
        assert forall|i: int| 0 <= i < s.len() implies digit_ok(#[trigger] s[i], base) by {
            if i < s.len() - 1 {
                assert(s[i] == t[i]);
            } else {
                assert(s[i] == digit_char(n % base));
            }
        };
    }
}

/// The canonical numeral of a value consists of digits of the base and
/// reads back as that value.
pub proof fn lemma_string_of_value(n: nat, base: nat)
    requires
        2 <= base <= 16,
    ensures
        string_of(n, base).len() >= 1,
        forall|i: int|
            0 <= i < string_of(n, base).len() ==> digit_ok(#[trigger] string_of(n, base)[i], base),
        value_of(string_of(n, base), base) == n,
{
    if n == 0 {
        let s = string_of(0, base);
        assert(s.len() == 1);
        assert(s.drop_last() =~= Seq::<char>::empty());
        assert(value_of(s.drop_last(), base) == 0);
        assert(s.last() == '0');
        assert(digit_val('0') == 0);
        assert(0 * base == 0) by (nonlinear_arith);
        assert(value_of(s, base) == 0);
    } else {
        lemma_digits_of_value(n, base);
    }
}

/// The round-trip law: formatting a 64-bit value in either base gives
/// well-shaped text that parses back to the same value.
pub proof fn lemma_round_trip(n: u64)
    ensures
        decimal_shape(dec_string_of(n as nat)),
        dec_value(dec_string_of(n as nat)) == n,
        hex_digits_shape(hex_string_of(n as nat)),
        hex_value(hex_string_of(n as nat)) == n,
{
    lemma_string_of_value(n as nat, 10);
    lemma_string_of_value(n as nat, 16);
    assert forall|i: int|
        0 <= i < dec_string_of(n as nat).len() implies is_dec_digit(
        #[trigger] dec_string_of(n as nat)[i],
    ) by {
        lemma_dec_digit_ok(dec_string_of(n as nat)[i]);
    };
}

/// Parse decimal text into a 64-bit value. Yields the value exactly when
/// the text is one or more decimal digits and the value fits in 64 bits.
pub fn parse_dec(text: &str) -> (r: Option<u64>)
    ensures
        match r {
            Some(v) => decimal_shape(text@) && dec_value(text@) <= u64::MAX && v as nat
                == dec_value(text@),
            None => !(decimal_shape(text@) && dec_value(text@) <= u64::MAX),
        },
{
    let len = text.unicode_len();
    if len == 0 {
        return None;
    }
    let mut acc: u64 = 0;
    let mut i: usize = 0;
    while i < len
        invariant
            0 <= i <= len,
            len == text@.len(),
            forall|j: int| 0 <= j < i ==> is_dec_digit(#[trigger] text@[j]),
            acc as nat == value_of(text@.take(i as int), 10),
        decreases len - i,
    {
        let c = text.get_char(i);
        if !check_dec_digit(c) {
            return None;
        }
        let d = digit_value(c);
        proof {
            lemma_value_of_take_step(text@, 10, i as int);
        }
        let shifted = match acc.checked_mul(10) {
            Some(m) => m,
            None => {
                proof {
                    lemma_value_of_take_le(text@, 10, i as int + 1);
                }
                return None;
            },
        };
        let next = match shifted.checked_add(d) {
            Some(a) => a,
            None => {
                proof {
                    lemma_value_of_take_le(text@, 10, i as int + 1);
                }
                return None;
            },
        };
        acc = next;
        i += 1;
    }
    proof {
        assert(text@.take(len as int) =~= text@);
    }
    Some(acc)
}

/// Parse hexadecimal text (digits only, no `0x` prefix, either case) into a
/// 64-bit value. Yields the value exactly when the text is one or more
/// hexadecimal digits and the value fits in 64 bits.
pub fn parse_hex(text: &str) -> (r: Option<u64>)
    ensures
        match r {
            Some(v) => hex_digits_shape(text@) && hex_value(text@) <= u64::MAX && v as nat
                == hex_value(text@),
            None => !(hex_digits_shape(text@) && hex_value(text@) <= u64::MAX),
        },
{
    let len = text.unicode_len();
    if len == 0 {
        return None;
    }
    let mut acc: u64 = 0;
    let mut i: usize = 0;
    while i < len
        invariant
            0 <= i <= len,
            len == text@.len(),
            forall|j: int| 0 <= j < i ==> is_hex_digit(#[trigger] text@[j]),
            acc as nat == value_of(text@.take(i as int), 16),
        decreases len - i,
    {
        let c = text.get_char(i);
        if !check_hex_digit(c) {
            return None;
        }
        let d = digit_value(c);
        proof {
            lemma_value_of_take_step(text@, 16, i as int);
        }
        let shifted = match acc.checked_mul(16) {
            Some(m) => m,
            None => {
                proof {
                    lemma_value_of_take_le(text@, 16, i as int + 1);
                }
                return None;
            },
        };
        let next = match shifted.checked_add(d) {
            Some(a) => a,
            None => {
                proof {
                    lemma_value_of_take_le(text@, 16, i as int + 1);
                }
                return None;
            },
        };
        acc = next;
        i += 1;
    }
    proof {
        assert(text@.take(len as int) =~= text@);
    }
    Some(acc)
}

/// The characters of collected digit values, lowest-order digit last.
spec fn rev_chars(ds: Seq<u64>) -> Seq<char> {
    Seq::new(ds.len(), |j: int| digit_char(ds[ds.len() - 1 - j] as nat))
}

/// Append the canonical numeral of `n` in the given base to `out`.
fn push_canonical(out: &mut String, n: u64, base: u64)
    requires
        base == 10 || base == 16,
    ensures
        final(out)@ == old(out)@ + string_of(n as nat, base as nat),
{
    if n == 0 {
        out.append(digit_str(0));
        proof {
            assert(old(out)@ + seq![digit_char(0)] =~= old(out)@ + string_of(0, base as nat));
        }
        return;
    }
    let mut ds: Vec<u64> = Vec::new();
    let mut cur = n;
    proof {
        assert(digits_of(n as nat, base as nat) =~= digits_of(n as nat, base as nat) + rev_chars(
            ds@,
        ));
    }
    while cur > 0
        invariant
            base == 10 || base == 16,
            digits_of(n as nat, base as nat) == digits_of(cur as nat, base as nat) + rev_chars(
                ds@,
            ),
            forall|j: int| 0 <= j < ds@.len() ==> #[trigger] ds@[j] < 16,
        decreases cur,
    {
        let d = cur % base;
        let next = cur / base;
        proof {
            assert(digits_of(cur as nat, base as nat) == digits_of(next as nat, base as nat).push(
                digit_char(d as nat),
            ));
            assert(rev_chars(ds@.push(d)) =~= seq![digit_char(d as nat)] + rev_chars(ds@));
            assert(digits_of(next as nat, base as nat) + rev_chars(ds@.push(d)) =~= digits_of(
                n as nat,
                base as nat,
            ));
        }
        ds.push(d);
        cur = next;
    }
    proof {
        assert(digits_of(n as nat, base as nat) =~= rev_chars(ds@));
    }
    let ghost start = out@;
    let ghost full = rev_chars(ds@);
    let mut i: usize = ds.len();
    while i > 0
        invariant
            i <= ds@.len(),
            forall|j: int| 0 <= j < ds@.len() ==> #[trigger] ds@[j] < 16,
            full == rev_chars(ds@),
            out@ == start + full.take(ds@.len() - i),
        decreases i,
    {
        i -= 1;
        let s = digit_str(ds[i]);
        out.append(s);
        proof {
            assert(full[ds@.len() - 1 - i] == digit_char(ds@[i as int] as nat));
            assert(out@ =~= start + full.take(ds@.len() - i));
        }
    }
    proof {
        assert(full.take(ds@.len() as int) =~= full);
    }
}

/// Format a 64-bit value as its canonical decimal text.
pub fn format_dec(n: u64) -> (r: String)
    ensures
        r@ == dec_string_of(n as nat),
{
    let mut out = String::new();
    push_canonical(&mut out, n, 10);
    proof {
        assert(Seq::<char>::empty() + string_of(n as nat, 10) =~= string_of(n as nat, 10));
    }
    out
}

/// Format a 64-bit value as `0x` followed by its canonical uppercase
/// hexadecimal digits.
pub fn format_hex(n: u64) -> (r: String)
    ensures
        r@ == hex_formatted(n as nat),
{
    let mut out = String::from_str("0x");
    proof {
        reveal_strlit("0x");
        assert(out@ =~= seq!['0', 'x']);
    }
    push_canonical(&mut out, n, 16);
    out
}

/// Parse decimal text and render its value in hexadecimal. Yields nothing
/// exactly when the text is not all decimal digits or its value exceeds
/// `u64::MAX`.
pub fn decimal_to_hex(text: &str) -> (r: Option<String>)
    ensures
        match r {
            Some(out) => decimal_shape(text@) && dec_value(text@) <= u64::MAX && out@
                == hex_formatted(dec_value(text@)),
            None => !(decimal_shape(text@) && dec_value(text@) <= u64::MAX),
        },
{
    match parse_dec(text) {
        Some(v) => Some(format_hex(v)),
        None => None,
    }
}

/// Parse hexadecimal text (no `0x` prefix) and render its value in decimal.
/// Yields nothing exactly when the text is not all hexadecimal digits or its
/// value exceeds `u64::MAX`.
pub fn hex_to_decimal(text: &str) -> (r: Option<String>)
    ensures
        match r {
            Some(out) => hex_digits_shape(text@) && hex_value(text@) <= u64::MAX && out@
                == dec_string_of(hex_value(text@)),
            None => !(hex_digits_shape(text@) && hex_value(text@) <= u64::MAX),
        },
{
    match parse_hex(text) {
        Some(v) => Some(format_dec(v)),
        None => None,
    }
}

} // verus!
