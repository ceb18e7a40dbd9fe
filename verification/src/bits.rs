//! Scalar arithmetic on matrix entries.
//!
//! A matrix entry is an IEEE-754 binary64 value carried as its 64-bit
//! pattern.  The results of the three arithmetic operations the matrix
//! operations need (addition, multiplication, subtraction) are functions
//! of the operand bit patterns alone; they are named by uninterpreted
//! spec functions and computed by `rustc_apfloat`'s software
//! implementation of IEEE-754 binary64.

use vstd::prelude::*;

use rustc_apfloat::Float;
use rustc_apfloat::Round;
use rustc_apfloat::ieee::Double;

verus! {

/// The bit pattern of the IEEE-754 binary64 sum of `a` and `b`
/// (round to nearest, ties to even).
pub uninterp spec fn spec_add(a: u64, b: u64) -> u64;

/// The bit pattern of the IEEE-754 binary64 product of `a` and `b`
/// (round to nearest, ties to even).
pub uninterp spec fn spec_mul(a: u64, b: u64) -> u64;

/// The bit pattern of the IEEE-754 binary64 difference `a - b`
/// (round to nearest, ties to even).
pub uninterp spec fn spec_sub(a: u64, b: u64) -> u64;

/// True when `b` is the bit pattern of an IEEE-754 binary64 NaN:
/// all eleven exponent bits set and a nonzero mantissa.
pub open spec fn is_nan_bits(b: u64) -> bool {
    (b >> 52) & 0x7ff == 0x7ff && (b & 0xf_ffff_ffff_ffff) != 0
}

/// Relies on `rustc_apfloat::ieee::Double::add_r` with round to nearest,
/// ties to even: the sum depends on the operand bit patterns alone, and
/// swapping the operands changes nothing unless both are NaN (each side
/// then propagates its left operand's payload).
#[verifier::external_body]
pub(crate) fn add_bits(a: u64, b: u64) -> (r: u64)
    ensures
        r == spec_add(a, b),
        !(is_nan_bits(a) && is_nan_bits(b)) ==> r == spec_add(b, a),
{
    let x = Double::from_bits(a as u128);
    let y = Double::from_bits(b as u128);
    x.add_r(y, Round::NearestTiesToEven).value.to_bits() as u64
}

/// Relies on `rustc_apfloat::ieee::Double::mul_r` with round to nearest,
/// ties to even: the product depends on the operand bit patterns alone.
#[verifier::external_body]
pub(crate) fn mul_bits(a: u64, b: u64) -> (r: u64)
    ensures
        r == spec_mul(a, b),
{
    let x = Double::from_bits(a as u128);
    let y = Double::from_bits(b as u128);
    x.mul_r(y, Round::NearestTiesToEven).value.to_bits() as u64
}

/// Relies on `rustc_apfloat::ieee::Double::sub_r` with round to nearest,
/// ties to even: the difference depends on the operand bit patterns alone.
#[verifier::external_body]
pub(crate) fn sub_bits(a: u64, b: u64) -> (r: u64)
    ensures
        r == spec_sub(a, b),
{
    let x = Double::from_bits(a as u128);
    let y = Double::from_bits(b as u128);
    x.sub_r(y, Round::NearestTiesToEven).value.to_bits() as u64
}

} // verus!
