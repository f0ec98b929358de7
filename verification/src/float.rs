//! The `Double` payload of a runtime value is an IEEE binary32 bit pattern
//! held as a `u32`. Arithmetic and ordering on those payloads are computed
//! by the software float implementation of the `rustc_apfloat` crate; each
//! operation's result is named by an uninterpreted spec function, since the
//! bit-level behaviour of IEEE arithmetic is not restated here.
use vstd::prelude::*;

use rustc_apfloat::Float;
use rustc_apfloat::ieee::Single;

verus! {

pub uninterp spec fn dbl_add_of(a: u32, b: u32) -> u32;

pub uninterp spec fn dbl_sub_of(a: u32, b: u32) -> u32;

pub uninterp spec fn dbl_lt_of(a: u32, b: u32) -> bool;

pub uninterp spec fn dbl_lteq_of(a: u32, b: u32) -> bool;

pub uninterp spec fn dbl_eq_of(a: u32, b: u32) -> bool;

pub uninterp spec fn dbl_of_i32(n: i32) -> u32;

pub uninterp spec fn dbl_str_of(a: u32) -> Seq<char>;

/// Relies on rustc_apfloat's `Add` for `ieee::Single`: IEEE binary32
/// addition, rounding to nearest even; a function of the two bit patterns.
#[verifier::external_body]
pub(crate) fn dbl_add(a: u32, b: u32) -> (r: u32)
    ensures
        r == dbl_add_of(a, b),
{
    let x = Single::from_bits(a as u128) + Single::from_bits(b as u128);
    x.value.to_bits() as u32
}

/// Relies on rustc_apfloat's `Sub` for `ieee::Single`: IEEE binary32
/// subtraction, rounding to nearest even; a function of the two bit patterns.
#[verifier::external_body]
pub(crate) fn dbl_sub(a: u32, b: u32) -> (r: u32)
    ensures
        r == dbl_sub_of(a, b),
{
    let x = Single::from_bits(a as u128) - Single::from_bits(b as u128);
    x.value.to_bits() as u32
}

/// Relies on rustc_apfloat's `PartialOrd` for `ieee::Single`: the IEEE
/// `<` predicate (false whenever an operand is a NaN).
#[verifier::external_body]
pub(crate) fn dbl_lt(a: u32, b: u32) -> (r: bool)
    ensures
        r == dbl_lt_of(a, b),
{
    Single::from_bits(a as u128) < Single::from_bits(b as u128)
}

/// Relies on rustc_apfloat's `PartialOrd` for `ieee::Single`: the IEEE
/// `<=` predicate (false whenever an operand is a NaN).
#[verifier::external_body]
pub(crate) fn dbl_lteq(a: u32, b: u32) -> (r: bool)
    ensures
        r == dbl_lteq_of(a, b),
{
    Single::from_bits(a as u128) <= Single::from_bits(b as u128)
}

/// Relies on rustc_apfloat's `PartialEq` for `ieee::Single`: IEEE equality
/// (NaN equals nothing, the two zeroes are equal).
#[verifier::external_body]
pub(crate) fn dbl_eq(a: u32, b: u32) -> (r: bool)
    ensures
        r == dbl_eq_of(a, b),
{
    Single::from_bits(a as u128) == Single::from_bits(b as u128)
}

/// Relies on rustc_apfloat's `Float::from_i128` for `ieee::Single`: the
/// IEEE binary32 nearest value of a signed integer.
#[verifier::external_body]
pub(crate) fn i32_to_dbl(n: i32) -> (r: u32)
    ensures
        r == dbl_of_i32(n),
{
    Single::from_i128(n as i128).value.to_bits() as u32
}

/// Relies on rustc_apfloat's `Display` for `ieee::Single`: a decimal
/// rendering determined by the bit pattern alone.
#[verifier::external_body]
pub(crate) fn dbl_to_string(a: u32) -> (r: String)
    ensures
        r@ == dbl_str_of(a),
{
    Single::from_bits(a as u128).to_string()
}

} // verus!
