use vstd::prelude::*;
use rustc_apfloat::ieee::Single;
use rustc_apfloat::{Float, Round};
use crate::expr::Kint;

verus! {

// IEEE-754 single-precision arithmetic on bit patterns, rounding to nearest
// with ties to even.
pub uninterp spec fn single_sum(a: u32, b: u32) -> u32;

pub uninterp spec fn single_difference(a: u32, b: u32) -> u32;

pub uninterp spec fn single_product(a: u32, b: u32) -> u32;

pub uninterp spec fn single_quotient(a: u32, b: u32) -> u32;

/// The single nearest to an integer.
pub uninterp spec fn single_of_int(i: int) -> u32;

/// The single nearest to a decimal numeral, or `None` when the text is not one.
pub uninterp spec fn single_of_decimal(s: Seq<char>) -> Option<u32>;

/// The decimal text of a single.
pub uninterp spec fn single_text(bits: u32) -> Seq<char>;

/// Relies on rustc_apfloat's `Display` for `Single`: decimal text that
/// depends on the bit pattern alone.
#[verifier::external_body]
pub(crate) fn single_to_text(bits: u32) -> (r: String)
    ensures
        r@ == single_text(bits),
{
    format!("{}", Single::from_bits(bits as u128))
}

/// Relies on rustc_apfloat's `Single::add_r`: the rounded sum.
#[verifier::external_body]
pub(crate) fn single_add(a: u32, b: u32) -> (r: u32)
    ensures
        r == single_sum(a, b),
{
    let x = Single::from_bits(a as u128);
    let y = Single::from_bits(b as u128);
    x.add_r(y, Round::NearestTiesToEven).value.to_bits() as u32
}

/// Relies on rustc_apfloat's `Single::sub_r`: the rounded difference.
#[verifier::external_body]
pub(crate) fn single_sub(a: u32, b: u32) -> (r: u32)
    ensures
        r == single_difference(a, b),
{
    let x = Single::from_bits(a as u128);
    let y = Single::from_bits(b as u128);
    x.sub_r(y, Round::NearestTiesToEven).value.to_bits() as u32
}

/// Relies on rustc_apfloat's `Single::mul_r`: the rounded product.
#[verifier::external_body]
pub(crate) fn single_mul(a: u32, b: u32) -> (r: u32)
    ensures
        r == single_product(a, b),
{
    let x = Single::from_bits(a as u128);
    let y = Single::from_bits(b as u128);
    x.mul_r(y, Round::NearestTiesToEven).value.to_bits() as u32
}

/// Relies on rustc_apfloat's `Single::div_r`: the rounded quotient.
#[verifier::external_body]
pub(crate) fn single_div(a: u32, b: u32) -> (r: u32)
    ensures
        r == single_quotient(a, b),
{
    let x = Single::from_bits(a as u128);
    let y = Single::from_bits(b as u128);
    x.div_r(y, Round::NearestTiesToEven).value.to_bits() as u32
}

/// Relies on rustc_apfloat's `Single::from_i128`: the nearest single.
#[verifier::external_body]
pub(crate) fn single_from_int(i: Kint) -> (r: u32)
    ensures
        r == single_of_int(i as int),
{
    Single::from_i128(i as i128).value.to_bits() as u32
}

/// Relies on rustc_apfloat's `Single::from_str_r`: the nearest single to a
/// decimal numeral; its parse error becomes `None`.
#[verifier::external_body]
pub(crate) fn single_from_decimal(text: &Vec<char>) -> (r: Option<u32>)
    ensures
        r == single_of_decimal(text@),
{
    let t: String = text.iter().collect();
    match Single::from_str_r(&t, Round::NearestTiesToEven) {
        Ok(v) => Some(v.value.to_bits() as u32),
        Err(_) => None,
    }
}

} // verus!
