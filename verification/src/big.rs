//! Trusted interface to the arbitrary-precision natural numbers of
//! `num_bigint`.
//!
//! A `BigUint` is opaque to the verifier; the uninterpreted function
//! [`big_value`] names the natural number it holds, and each wrapper below
//! states over that name what the corresponding `num_bigint` operation does.

use vstd::prelude::*;
use num_bigint::BigUint;
use num_traits::One;
use num_traits::Zero;

verus! {

#[verifier::external_type_specification]
#[verifier::external_body]
pub struct ExBigUint(BigUint);

/// The natural number a `BigUint` holds.
pub uninterp spec fn big_value(b: &BigUint) -> nat;

/// Relies on `<BigUint as From<u64>>::from`: the new value is the given one.
#[verifier::external_body]
pub(crate) fn big_from_u64(x: u64) -> (r: BigUint)
    ensures
        big_value(&r) == x as nat,
{
    BigUint::from(x)
}

/// Relies on `<BigUint as Clone>::clone`: the copy holds the same value.
#[verifier::external_body]
pub(crate) fn big_clone(a: &BigUint) -> (r: BigUint)
    ensures
        big_value(&r) == big_value(a),
{
    a.clone()
}

/// Relies on `Add` for `&BigUint`: exact sum, no overflow.
#[verifier::external_body]
pub(crate) fn big_add(a: &BigUint, b: &BigUint) -> (r: BigUint)
    ensures
        big_value(&r) == big_value(a) + big_value(b),
{
    a + b
}

/// Relies on `Sub` for `&BigUint`: exact difference. `num_bigint` panics on
/// underflow, so the minuend must be at least the subtrahend.
#[verifier::external_body]
pub(crate) fn big_sub(a: &BigUint, b: &BigUint) -> (r: BigUint)
    requires
        big_value(b) <= big_value(a),
    ensures
        big_value(&r) == big_value(a) - big_value(b),
{
    a - b
}

/// Relies on `Mul` for `&BigUint`: exact product, no overflow.
#[verifier::external_body]
pub(crate) fn big_mul(a: &BigUint, b: &BigUint) -> (r: BigUint)
    ensures
        big_value(&r) == big_value(a) * big_value(b),
{
    a * b
}

/// Relies on `num_traits::Zero::is_zero` for `BigUint`.
#[verifier::external_body]
pub(crate) fn big_is_zero(a: &BigUint) -> (r: bool)
    ensures
        r == (big_value(a) == 0),
{
    a.is_zero()
}

/// Relies on `num_traits::One::is_one` for `BigUint`.
#[verifier::external_body]
pub(crate) fn big_is_one(a: &BigUint) -> (r: bool)
    ensures
        r == (big_value(a) == 1),
{
    a.is_one()
}

/// Relies on `PartialEq` for `BigUint`: equality of the held values.
#[verifier::external_body]
pub(crate) fn big_eq(a: &BigUint, b: &BigUint) -> (r: bool)
    ensures
        r == (big_value(a) == big_value(b)),
{
    a == b
}

/// Relies on `Ord` for `BigUint`: numeric comparison of the held values.
#[verifier::external_body]
pub(crate) fn big_gt(a: &BigUint, b: &BigUint) -> (r: bool)
    ensures
        r == (big_value(a) > big_value(b)),
{
    a > b
}

/// Relies on `BigUint::bit`: bit 0 is set exactly when the value is odd.
#[verifier::external_body]
pub(crate) fn big_bit0(a: &BigUint) -> (r: bool)
    ensures
        r == (big_value(a) % 2 == 1),
{
    a.bit(0)
}

/// Relies on `Shr` for `&BigUint`: shifting right by one halves the value,
/// rounding down.
#[verifier::external_body]
pub(crate) fn big_half(a: &BigUint) -> (r: BigUint)
    ensures
        big_value(&r) == big_value(a) / 2,
{
    a >> 1u32
}

} // verus!
