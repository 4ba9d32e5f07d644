//! Conversion of numeric literals between decimal and hexadecimal text.
//!
//! The library classifies an input token (decimal digits, or `0x` followed
//! by hexadecimal digits), parses it as an unsigned 64-bit integer, and
//! renders it in the other base. Three entry points cover the three modes:
//! auto-detection, forced hexadecimal output, and forced decimal output.

pub mod digits;

pub mod classify;

pub mod numeral;

pub mod convert;
