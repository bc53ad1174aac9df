//! Trusted interface to `num`'s signed arbitrary-precision integers.
//!
//! A `num::BigInt` is opaque to the verifier; the uninterpreted function
//! [`big_value`] names the mathematical integer such a value holds, and every
//! wrapper below states what the wrapped `num` operation does to that integer.

use vstd::prelude::*;
use vstd::arithmetic::power2::pow2;
use num::BigInt;

verus! {

#[verifier::external_type_specification]
#[verifier::external_body]
pub struct ExBigInt(BigInt);

/// The mathematical integer held by a `num::BigInt`.
pub uninterp spec fn big_value(b: BigInt) -> int;

/// Relies on `num::BigInt::from` for `i128`: the result holds exactly the
/// given machine integer.
#[verifier::external_body]
pub(crate) fn big_from_i128(v: i128) -> (r: BigInt)
    ensures
        big_value(r) == v as int,
{
    BigInt::from(v)
}

/// Relies on `num::BigInt`'s `Clone`: the copy holds the same integer.
#[verifier::external_body]
pub(crate) fn big_clone(a: &BigInt) -> (r: BigInt)
    ensures
        big_value(r) == big_value(*a),
{
    a.clone()
}

/// Relies on `Add for &BigInt`: exact integer addition.
#[verifier::external_body]
pub(crate) fn big_add(a: &BigInt, b: &BigInt) -> (r: BigInt)
    ensures
        big_value(r) == big_value(*a) + big_value(*b),
{
    a + b
}

/// Relies on `Sub for &BigInt`: exact integer subtraction.
#[verifier::external_body]
pub(crate) fn big_sub(a: &BigInt, b: &BigInt) -> (r: BigInt)
    ensures
        big_value(r) == big_value(*a) - big_value(*b),
{
    a - b
}

/// Relies on `Mul for &BigInt`: exact integer multiplication.
#[verifier::external_body]
pub(crate) fn big_mul(a: &BigInt, b: &BigInt) -> (r: BigInt)
    ensures
        big_value(r) == big_value(*a) * big_value(*b),
{
    a * b
}

/// Relies on `Shl<usize> for &BigInt`: shifts the magnitude and keeps the
/// sign, so the value is multiplied by two to the shift distance, exactly.
#[verifier::external_body]
pub(crate) fn big_shl(a: &BigInt, k: usize) -> (r: BigInt)
    ensures
        big_value(r) == big_value(*a) * pow2(k as nat),
{
    a << k
}

/// Relies on `Shr<usize> for &BigInt`: its source rounds a negative value
/// down whenever set bits are shifted out, so the result is the value divided
/// by two to the shift distance, rounded toward negative infinity -- which is
/// what `/` by a positive divisor means here.
#[verifier::external_body]
pub(crate) fn big_shr(a: &BigInt, k: usize) -> (r: BigInt)
    ensures
        big_value(r) == big_value(*a) / pow2(k as nat) as int,
{
    a >> k
}

/// Relies on `Div<u32> for BigInt`: the magnitude is divided and the sign
/// kept, i.e. the quotient is truncated toward zero; for a non-negative
/// dividend that is the same as `/` by a positive divisor here.  A zero
/// divisor would panic, so it is excluded.
#[verifier::external_body]
pub(crate) fn big_div_u32(a: &BigInt, d: u32) -> (r: BigInt)
    requires
        big_value(*a) >= 0,
        d > 0,
    ensures
        big_value(r) == big_value(*a) / d as int,
{
    a.clone() / d
}

/// Relies on `Ord for BigInt`: big integers compare as the integers they
/// hold.
#[verifier::external_body]
pub(crate) fn big_gt(a: &BigInt, b: &BigInt) -> (r: bool)
    ensures
        r == (big_value(*a) > big_value(*b)),
{
    a > b
}

} // verus!
