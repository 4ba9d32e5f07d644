//! The mode dispatcher: auto-detecting and forced-mode conversion between
//! decimal and hexadecimal text.

use vstd::prelude::*;
use vstd::string::{StrSliceExecFns, StringExecFns};
use crate::digits::is_dec_digit;
use crate::classify::{
    decimal_shape, decimal_test, hex_digits_shape, hex_loose_shape, hex_prefix_shape,
    hex_prefix_test, hex_strict_shape, hex_strict_test, lemma_loose_match_anchored,
};
use crate::numeral::{
    dec_string_of, dec_value, decimal_to_hex, hex_formatted, hex_string_of, hex_to_decimal,
    hex_value, lemma_round_trip,
};

verus! {

/// The conversion mode chosen for one invocation.
#[derive(Clone, Copy, Debug, PartialEq, Eq, Structural)]
pub enum Mode {
    /// Detect the base from the text itself.
    Auto,
    /// Force hexadecimal output.
    ForceHex,
    /// Force decimal output.
    ForceDecimal,
}

/// Why a conversion was rejected.
#[derive(Clone, Copy, Debug, PartialEq, Eq, Structural)]
pub enum ConvError {
    /// Text on the hexadecimal path whose digits do not parse as a 64-bit
    /// value.
    InvalidHexadecimal,
    /// Text on the decimal path that does not parse as a 64-bit value.
    InvalidDecimal,
    /// Forced hexadecimal mode: the text is neither decimal nor hexadecimal.
    UnrecognizedHexMode,
    /// Forced decimal mode: the text is neither decimal nor hexadecimal.
    UnrecognizedDecMode,
}

impl ConvError {
    /// The human-readable description of the error.
    pub open spec fn message_spec(&self) -> Seq<char> {
        match self {
            ConvError::InvalidHexadecimal => "Invalid hexadecimal number"@,
            ConvError::InvalidDecimal => "Invalid decimal number"@,
            ConvError::UnrecognizedHexMode => "Invalid input: only decimal or hexadecimal numbers are allowed in -x mode"@,
            ConvError::UnrecognizedDecMode => "Invalid input: only decimal or hexadecimal numbers are allowed in -d mode"@,
        }
    }

    /// Render the human-readable description.
    pub fn message(&self) -> (r: String)
        ensures
            r@ == self.message_spec(),
    {
        match self {
            ConvError::InvalidHexadecimal => String::from_str("Invalid hexadecimal number"),
            ConvError::InvalidDecimal => String::from_str("Invalid decimal number"),
            ConvError::UnrecognizedHexMode => String::from_str(
                "Invalid input: only decimal or hexadecimal numbers are allowed in -x mode",
            ),
            ConvError::UnrecognizedDecMode => String::from_str(
                "Invalid input: only decimal or hexadecimal numbers are allowed in -d mode",
            ),
        }
    }
}

/// The ruling of auto-detecting conversion: text beginning with the
/// hexadecimal marker goes to decimal, everything else is read as decimal
/// and goes to hexadecimal.
pub open spec fn auto_spec(text: Seq<char>) -> Result<Seq<char>, ConvError> {
    if hex_prefix_shape(text) {
        if hex_digits_shape(text.skip(2)) && hex_value(text.skip(2)) <= u64::MAX {
            Ok(dec_string_of(hex_value(text.skip(2))))
        } else {
            Err(ConvError::InvalidHexadecimal)
        }
    } else {
        if decimal_shape(text) && dec_value(text) <= u64::MAX {
            Ok(hex_formatted(dec_value(text)))
        } else {
            Err(ConvError::InvalidDecimal)
        }
    }
}

/// The ruling of forced hexadecimal mode: hexadecimal text passes through
/// verbatim, decimal text is converted, everything else is rejected.
pub open spec fn hex_mode_spec(text: Seq<char>) -> Result<Seq<char>, ConvError> {
    if hex_strict_shape(text) {
        Ok(text)
    } else if decimal_shape(text) {
        if dec_value(text) <= u64::MAX {
            Ok(hex_formatted(dec_value(text)))
        } else {
            Err(ConvError::InvalidDecimal)
        }
    } else {
        Err(ConvError::UnrecognizedHexMode)
    }
}

/// The ruling of forced decimal mode: decimal text passes through verbatim,
/// hexadecimal text is converted, everything else is rejected.
pub open spec fn dec_mode_spec(text: Seq<char>) -> Result<Seq<char>, ConvError> {
    if decimal_shape(text) {
        Ok(text)
    } else if hex_strict_shape(text) {
        if hex_value(text.skip(2)) <= u64::MAX {
            Ok(dec_string_of(hex_value(text.skip(2))))
        } else {
            Err(ConvError::InvalidHexadecimal)
        }
    } else {
        Err(ConvError::UnrecognizedDecMode)
    }
}

/// The executable result agrees with the specified ruling: the same variant
/// and, on success, the same text.
pub open spec fn result_matches(r: Result<String, ConvError>, m: Result<Seq<char>, ConvError>) -> bool {
    match (r, m) {
        (Ok(s), Ok(t)) => s@ == t,
        (Err(e), Err(f)) => e == f,
        _ => false,
    }
}

/// Auto-detecting conversion. The hexadecimal path is taken exactly when the
/// text begins with the `0x` marker; a marker elsewhere in the text can never
/// belong to well-formed hexadecimal input, so such text falls to the decimal
/// path and is rejected there, as the second `ensures` clause records.
pub fn convert(text: &str) -> (r: Result<String, ConvError>)
    ensures
        result_matches(r, auto_spec(text@)),
        hex_loose_shape(text@) && hex_digits_shape(text@.skip(2)) && hex_value(text@.skip(2))
            <= u64::MAX ==> (r matches Ok(out) && out@ == dec_string_of(hex_value(text@.skip(2)))),
{
    proof {
        if hex_loose_shape(text@) && hex_digits_shape(text@.skip(2)) {
            lemma_loose_match_anchored(text@);
        }
    }
    if hex_prefix_test(text) {
        let len = text.unicode_len();
        let digits = text.substring_char(2, len);
        proof {
            assert(digits@ =~= text@.skip(2));
        }
        match hex_to_decimal(digits) {
            Some(out) => Ok(out),
            None => Err(ConvError::InvalidHexadecimal),
        }
    } else {
        match decimal_to_hex(text) {
            Some(out) => Ok(out),
            None => Err(ConvError::InvalidDecimal),
        }
    }
}

/// Forced hexadecimal mode: the result is hexadecimal text.
pub fn convert_hex_mode(text: &str) -> (r: Result<String, ConvError>)
    ensures
        result_matches(r, hex_mode_spec(text@)),
{
    if hex_strict_test(text) {
        Ok(text.to_owned())
    } else if decimal_test(text) {
        match decimal_to_hex(text) {
            Some(out) => Ok(out),
            None => Err(ConvError::InvalidDecimal),
        }
    } else {
        Err(ConvError::UnrecognizedHexMode)
    }
}

/// Forced decimal mode: the result is decimal text.
pub fn convert_dec_mode(text: &str) -> (r: Result<String, ConvError>)
    ensures
        result_matches(r, dec_mode_spec(text@)),
{
    if decimal_test(text) {
        Ok(text.to_owned())
    } else if hex_strict_test(text) {
        let len = text.unicode_len();
        let digits = text.substring_char(2, len);
        proof {
            assert(digits@ =~= text@.skip(2));
        }
        match hex_to_decimal(digits) {
            Some(out) => Ok(out),
            None => Err(ConvError::InvalidHexadecimal),
        }
    } else {
        Err(ConvError::UnrecognizedDecMode)
    }
}

/// Dispatch one conversion according to the chosen mode.
pub fn convert_with_mode(mode: Mode, text: &str) -> (r: Result<String, ConvError>)
    ensures
        mode == Mode::Auto ==> result_matches(r, auto_spec(text@)),
        mode == Mode::ForceHex ==> result_matches(r, hex_mode_spec(text@)),
        mode == Mode::ForceDecimal ==> result_matches(r, dec_mode_spec(text@)),
{
    match mode {
        Mode::Auto => convert(text),
        Mode::ForceHex => convert_hex_mode(text),
        Mode::ForceDecimal => convert_dec_mode(text),
    }
}

/// The auto-detecting converter of the command-line tool, which reports
/// failure as an empty string instead of an error value.
pub struct Converter {}

impl Converter {
    /// Create a converter.
    pub fn new() -> (c: Converter) {
        Converter {}
    }

    /// Convert with auto-detection; an empty result reports failure.
    pub fn convert(&self, value: String) -> (r: String)
        ensures
            match auto_spec(value@) {
                Ok(t) => r@ == t,
                Err(_) => r@ == Seq::<char>::empty(),
            },
    {
        match crate::convert::convert(value.as_str()) {
            Ok(out) => out,
            Err(_) => String::new(),
        }
    }
}

/// Forced hexadecimal mode passes hexadecimal text through verbatim.
pub proof fn lemma_hex_mode_idempotent(s: Seq<char>)
    requires
        hex_strict_shape(s),
    ensures
        hex_mode_spec(s) == Ok::<Seq<char>, ConvError>(s),
{
}

/// Forced decimal mode passes decimal text through verbatim.
pub proof fn lemma_dec_mode_idempotent(s: Seq<char>)
    requires
        decimal_shape(s),
    ensures
        dec_mode_spec(s) == Ok::<Seq<char>, ConvError>(s),
{
}

/// Auto-detection inverts itself on canonical text: the decimal rendering of
/// a 64-bit value converts to its hexadecimal rendering, and the hexadecimal
/// rendering converts back to the decimal one.
pub proof fn lemma_auto_round_trip(n: u64)
    ensures
        auto_spec(dec_string_of(n as nat)) == Ok::<Seq<char>, ConvError>(hex_formatted(n as nat)),
        auto_spec(hex_formatted(n as nat)) == Ok::<Seq<char>, ConvError>(dec_string_of(n as nat)),
{
    lemma_round_trip(n);
    let d = dec_string_of(n as nat);
    let h = hex_formatted(n as nat);
    // decimal text never begins with the marker: its second character is a digit
    assert(!is_dec_digit('x'));
    if hex_prefix_shape(d) {
        assert(is_dec_digit(d[1]));
        assert(false);
    }
    // the hexadecimal rendering begins with the marker, and what follows it
    // is exactly the canonical digits
    assert(h[0] == '0');
    assert(h[1] == 'x');
    assert(h[2] == hex_string_of(n as nat)[0]);
    assert(h.skip(2) =~= hex_string_of(n as nat));
}

/// The empty string is rejected in every mode.
pub proof fn lemma_empty_rejected()
    ensures
        auto_spec(Seq::<char>::empty()) == Err::<Seq<char>, ConvError>(ConvError::InvalidDecimal),
        hex_mode_spec(Seq::<char>::empty()) == Err::<Seq<char>, ConvError>(
            ConvError::UnrecognizedHexMode,
        ),
        dec_mode_spec(Seq::<char>::empty()) == Err::<Seq<char>, ConvError>(
            ConvError::UnrecognizedDecMode,
        ),
{
}

/// Decimal text whose value exceeds `u64::MAX` is rejected wherever a
/// conversion is attempted; forced decimal mode performs no conversion on
/// decimal text and passes it through unchanged.
pub proof fn lemma_decimal_overflow_rejected(s: Seq<char>)
    requires
        decimal_shape(s),
        dec_value(s) > u64::MAX,
    ensures
        auto_spec(s) == Err::<Seq<char>, ConvError>(ConvError::InvalidDecimal),
        hex_mode_spec(s) == Err::<Seq<char>, ConvError>(ConvError::InvalidDecimal),
        dec_mode_spec(s) == Ok::<Seq<char>, ConvError>(s),
{
    assert(!is_dec_digit('x'));
    if hex_prefix_shape(s) {
        assert(is_dec_digit(s[1]));
        assert(false);
    }
    if hex_strict_shape(s) {
        assert(is_dec_digit(s[1]));
        assert(false);
    }
}

} // verus!
