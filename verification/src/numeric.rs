//! Arithmetic on IEEE-754 binary64 values, carried as their bit patterns.
//!
//! The verified code never holds a floating-point value: a number is its
//! 64-bit pattern. What an operation returns is named by an uninterpreted
//! spec function, and a trusted wrapper ties that name to the outside
//! function that computes it.

use vstd::prelude::*;
use rustc_apfloat::Float;

verus! {

/// Bit pattern of positive zero.
pub const POS_ZERO_BITS: u64 = 0;

/// Bit pattern of negative zero.
pub const NEG_ZERO_BITS: u64 = 0x8000_0000_0000_0000;

/// A binary64 value compares equal to zero exactly when its pattern is one
/// of the two zeros; every NaN compares unequal to zero.
pub open spec fn is_zero_bits(b: u64) -> bool {
    b == POS_ZERO_BITS || b == NEG_ZERO_BITS
}

/// Exact test against zero, as `== 0.0` performs it.
pub fn bits_is_zero(b: u64) -> (r: bool)
    ensures
        r == is_zero_bits(b),
{
    b == POS_ZERO_BITS || b == NEG_ZERO_BITS
}

/// The binary64 value denoted by a numeric literal, as a bit pattern.
pub uninterp spec fn float_of_text(s: Seq<char>) -> u64;

/// The sum of two binary64 values.
pub uninterp spec fn add_of(a: u64, b: u64) -> u64;

/// The difference of two binary64 values.
pub uninterp spec fn sub_of(a: u64, b: u64) -> u64;

/// The product of two binary64 values.
pub uninterp spec fn mul_of(a: u64, b: u64) -> u64;

/// The quotient of two binary64 values.
pub uninterp spec fn div_of(a: u64, b: u64) -> u64;

/// The first value raised to the power of the second.
pub uninterp spec fn pow_of(a: u64, b: u64) -> u64;

/// The sine of a binary64 value.
pub uninterp spec fn sin_of(a: u64) -> u64;

/// The cosine of a binary64 value.
pub uninterp spec fn cos_of(a: u64) -> u64;

/// The square root of a binary64 value.
pub uninterp spec fn sqrt_of(a: u64) -> u64;

/// The larger of two binary64 values, as `fmax` defines it.
pub uninterp spec fn max_of(a: u64, b: u64) -> u64;

/// The smaller of two binary64 values, as `fmin` defines it.
pub uninterp spec fn min_of(a: u64, b: u64) -> u64;

/// The absolute value of a binary64 value clears the sign bit and keeps
/// every other bit, for zeros, subnormals, normals, infinities and NaNs
/// alike; no outside call is needed for it.
pub open spec fn abs_of(b: u64) -> u64 {
    b & 0x7FFF_FFFF_FFFF_FFFF
}

/// Absolute value on bit patterns.
pub fn abs_bits(b: u64) -> (r: u64)
    ensures
        r == abs_of(b),
{
    b & 0x7FFF_FFFF_FFFF_FFFF
}

/// Relies on `rustc_apfloat::ieee::Double::from_str`: correctly rounded
/// (nearest-even) decimal-to-binary64 conversion. On a non-empty digit-led
/// string of digits and dots it succeeds exactly when the string has at most
/// one dot ("String contains multiple dots" otherwise).
#[verifier::external_body]
pub(crate) fn parse_number_bits(text: &Vec<char>) -> (r: Option<u64>)
    requires
        text@.len() > 0,
        crate::token::is_digit_char(text@[0]),
        forall|i: int| 0 <= i < text@.len() ==> crate::token::is_number_char(text@[i]),
    ensures
        r is Some <==> crate::token::dot_count(text@) <= 1,
        r matches Some(b) ==> b == float_of_text(text@),
{
    let s: String = text.iter().collect();
    match s.parse::<rustc_apfloat::ieee::Double>() {
        Ok(d) => Some(d.to_bits() as u64),
        Err(_) => None,
    }
}

/// Relies on `rustc_apfloat`'s binary64 addition, rounding to nearest even:
/// IEEE-754 addition on bit patterns.
#[verifier::external_body]
pub(crate) fn add_bits(a: u64, b: u64) -> (r: u64)
    ensures
        r == add_of(a, b),
{
    (rustc_apfloat::ieee::Double::from_bits(a as u128)
        + rustc_apfloat::ieee::Double::from_bits(b as u128)).value.to_bits() as u64
}

/// Relies on `rustc_apfloat`'s binary64 subtraction, rounding to nearest even.
#[verifier::external_body]
pub(crate) fn sub_bits(a: u64, b: u64) -> (r: u64)
    ensures
        r == sub_of(a, b),
{
    (rustc_apfloat::ieee::Double::from_bits(a as u128)
        - rustc_apfloat::ieee::Double::from_bits(b as u128)).value.to_bits() as u64
}

/// Relies on `rustc_apfloat`'s binary64 multiplication, rounding to nearest even.
#[verifier::external_body]
pub(crate) fn mul_bits(a: u64, b: u64) -> (r: u64)
    ensures
        r == mul_of(a, b),
{
    (rustc_apfloat::ieee::Double::from_bits(a as u128)
        * rustc_apfloat::ieee::Double::from_bits(b as u128)).value.to_bits() as u64
}

/// Relies on `rustc_apfloat`'s binary64 division, rounding to nearest even.
/// Total on bit patterns: a zero divisor yields an infinity or NaN, never a
/// trap; callers that refuse zero divisors test the pattern first.
#[verifier::external_body]
pub(crate) fn div_bits(a: u64, b: u64) -> (r: u64)
    ensures
        r == div_of(a, b),
{
    (rustc_apfloat::ieee::Double::from_bits(a as u128)
        / rustc_apfloat::ieee::Double::from_bits(b as u128)).value.to_bits() as u64
}

/// Relies on `libm::pow`: real-valued exponentiation, a pure function of its
/// two arguments; `bytemuck::cast` moves the bit patterns in and out.
#[verifier::external_body]
pub(crate) fn pow_bits(a: u64, b: u64) -> (r: u64)
    ensures
        r == pow_of(a, b),
{
    bytemuck::cast(libm::pow(bytemuck::cast(a), bytemuck::cast(b)))
}

/// Relies on `libm::sin`: the sine, a pure function of its argument.
#[verifier::external_body]
pub(crate) fn sin_bits(a: u64) -> (r: u64)
    ensures
        r == sin_of(a),
{
    bytemuck::cast(libm::sin(bytemuck::cast(a)))
}

/// Relies on `libm::cos`: the cosine, a pure function of its argument.
#[verifier::external_body]
pub(crate) fn cos_bits(a: u64) -> (r: u64)
    ensures
        r == cos_of(a),
{
    bytemuck::cast(libm::cos(bytemuck::cast(a)))
}

/// Relies on `libm::sqrt`: the correctly rounded IEEE-754 square root.
#[verifier::external_body]
pub(crate) fn sqrt_bits(a: u64) -> (r: u64)
    ensures
        r == sqrt_of(a),
{
    bytemuck::cast(libm::sqrt(bytemuck::cast(a)))
}

/// Relies on `libm::fmax`: the larger argument, ignoring a NaN.
#[verifier::external_body]
pub(crate) fn max_bits(a: u64, b: u64) -> (r: u64)
    ensures
        r == max_of(a, b),
{
    bytemuck::cast(libm::fmax(bytemuck::cast(a), bytemuck::cast(b)))
}

/// Relies on `libm::fmin`: the smaller argument, ignoring a NaN.
#[verifier::external_body]
pub(crate) fn min_bits(a: u64, b: u64) -> (r: u64)
    ensures
        r == min_of(a, b),
{
    bytemuck::cast(libm::fmin(bytemuck::cast(a), bytemuck::cast(b)))
}

} // verus!
