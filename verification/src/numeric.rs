//! Arithmetic on IEEE 754 binary64 bit patterns.
//!
//! The calculator carries every number as the 64-bit pattern of a binary64
//! value. The arithmetic itself is done by `rustc_apfloat`, a software
//! implementation of IEEE 754 whose results are a pure function of the
//! operand bits; each operation is named by an uninterpreted spec function.
//! Negation and the finiteness test are plain bit manipulation and are
//! implemented and verified here directly.

use rustc_apfloat::Float;
use vstd::prelude::*;

verus! {

/// The sign bit of an IEEE 754 binary64 bit pattern.
pub const SIGN_MASK: u64 = 0x8000_0000_0000_0000;

/// The bit pattern that IEEE 754 binary64 addition, rounding to nearest
/// even, yields for two operand bit patterns.
pub uninterp spec fn spec_add(a: u64, b: u64) -> u64;

/// The bit pattern that IEEE 754 binary64 subtraction yields.
pub uninterp spec fn spec_sub(a: u64, b: u64) -> u64;

/// The bit pattern that IEEE 754 binary64 multiplication yields.
pub uninterp spec fn spec_mul(a: u64, b: u64) -> u64;

/// The bit pattern that IEEE 754 binary64 division yields.
pub uninterp spec fn spec_div(a: u64, b: u64) -> u64;

/// The bit pattern that the IEEE 754 binary64 remainder with the sign of
/// the dividend (the `%` operator on floats) yields.
pub uninterp spec fn spec_rem(a: u64, b: u64) -> u64;

/// What parsing a decimal numeric literal as a binary64 value yields:
/// the correctly rounded bit pattern, or `None` when the text is not a
/// well-formed literal.
pub uninterp spec fn spec_parse_number(s: Seq<char>) -> Option<u64>;

/// Whether a character counts as numeric when a literal is scanned, per
/// the Unicode `Numeric` property.
pub uninterp spec fn spec_char_is_numeric(c: char) -> bool;

/// Relies on `rustc_apfloat::ieee::Double` addition (the arithmetic rustc
/// itself uses to fold `f64` expressions): the result bits depend on the
/// operand bits alone.
#[verifier::external_body]
pub(crate) fn add_bits(a: u64, b: u64) -> (r: u64)
    ensures
        r == spec_add(a, b),
{
    let x = rustc_apfloat::ieee::Double::from_bits(a as u128);
    let y = rustc_apfloat::ieee::Double::from_bits(b as u128);
    (x + y).value.to_bits() as u64
}

/// Relies on `rustc_apfloat::ieee::Double` subtraction: the result bits
/// depend on the operand bits alone.
#[verifier::external_body]
pub(crate) fn sub_bits(a: u64, b: u64) -> (r: u64)
    ensures
        r == spec_sub(a, b),
{
    let x = rustc_apfloat::ieee::Double::from_bits(a as u128);
    let y = rustc_apfloat::ieee::Double::from_bits(b as u128);
    (x - y).value.to_bits() as u64
}

/// Relies on `rustc_apfloat::ieee::Double` multiplication: the result bits
/// depend on the operand bits alone.
#[verifier::external_body]
pub(crate) fn mul_bits(a: u64, b: u64) -> (r: u64)
    ensures
        r == spec_mul(a, b),
{
    let x = rustc_apfloat::ieee::Double::from_bits(a as u128);
    let y = rustc_apfloat::ieee::Double::from_bits(b as u128);
    (x * y).value.to_bits() as u64
}

/// Relies on `rustc_apfloat::ieee::Double` division: the result bits depend
/// on the operand bits alone.
#[verifier::external_body]
pub(crate) fn div_bits(a: u64, b: u64) -> (r: u64)
    ensures
        r == spec_div(a, b),
{
    let x = rustc_apfloat::ieee::Double::from_bits(a as u128);
    let y = rustc_apfloat::ieee::Double::from_bits(b as u128);
    (x / y).value.to_bits() as u64
}

/// Relies on `rustc_apfloat::ieee::Double`'s `%`, the remainder with the
/// sign of the dividend: the result bits depend on the operand bits alone.
#[verifier::external_body]
pub(crate) fn rem_bits(a: u64, b: u64) -> (r: u64)
    ensures
        r == spec_rem(a, b),
{
    let x = rustc_apfloat::ieee::Double::from_bits(a as u128);
    let y = rustc_apfloat::ieee::Double::from_bits(b as u128);
    (x % y).value.to_bits() as u64
}

/// Relies on `rustc_apfloat::ieee::Double`'s `FromStr`: correctly rounded
/// decimal parsing of a binary64 value, a pure function of the characters,
/// failing exactly on text that is not a well-formed literal.
#[verifier::external_body]
pub(crate) fn parse_number_bits(chars: &Vec<char>) -> (r: Option<u64>)
    ensures
        r == spec_parse_number(chars@),
{
    let text: String = chars.iter().collect();
    match text.parse::<rustc_apfloat::ieee::Double>() {
        Ok(v) => Some(v.to_bits() as u64),
        Err(_) => None,
    }
}

/// Relies on `char::is_numeric`: whether a character has the Unicode
/// `Numeric` property depends on the character alone.
#[verifier::external_body]
pub(crate) fn char_is_numeric(c: char) -> (r: bool)
    ensures
        r == spec_char_is_numeric(c),
{
    c.is_numeric()
}

/// The negation of a binary64 bit pattern. IEEE 754 negation flips the sign
/// bit and changes nothing else.
pub open spec fn spec_neg(a: u64) -> u64 {
    a ^ SIGN_MASK
}

/// Negates a binary64 bit pattern by flipping its sign bit.
pub fn neg_bits(a: u64) -> (r: u64)
    ensures
        r == spec_neg(a),
{
    a ^ SIGN_MASK
}

/// Whether a binary64 bit pattern is non-finite (infinite or not-a-number):
/// exactly the patterns whose eleven exponent bits are all ones.
pub open spec fn spec_is_nonfinite(a: u64) -> bool {
    (a >> 52) & 0x7ff == 0x7ff
}

/// Tests whether a binary64 bit pattern is infinite or not-a-number.
pub fn is_nonfinite_bits(a: u64) -> (r: bool)
    ensures
        r == spec_is_nonfinite(a),
{
    (a >> 52) & 0x7ff == 0x7ff
}

} // verus!
