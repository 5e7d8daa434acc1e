//! Arbitrary-precision naturals, as `num_bigint::BigUint` provides them.
//!
//! Nothing inside a `BigUint` is visible to the verifier. Each function here
//! makes one call into `num_bigint` (or `num_traits`) and states, without
//! proof, what the call returns in terms of the natural number that the value
//! denotes. Everything else in the crate is proved from these statements.

use vstd::prelude::*;
use num_bigint::BigUint;
use num_traits::{Pow, ToPrimitive};
use crate::numeral::{digits_below, digits_value, power};

verus! {

/// `num_bigint::BigUint`, taken as a value of which nothing is seen but
/// the number that it denotes.
#[verifier::external_type_specification]
#[verifier::external_body]
pub struct ExBigUint(num_bigint::BigUint);

/// The natural number that a `BigUint` denotes.
pub uninterp spec fn big_value(n: BigUint) -> nat;

/// `BigUint::from(u32)`: the value of the result is the argument.
#[verifier::external_body]
pub(crate) fn big_from_u32(x: u32) -> (r: BigUint)
    ensures
        big_value(r) == x as nat,
{
    BigUint::from(x)
}

/// `Clone::clone` of a `BigUint`: the copy denotes the same number.
pub assume_specification[ <BigUint as Clone>::clone ](a: &BigUint) -> (r: BigUint)
    ensures
        big_value(r) == big_value(*a),
;

/// `&BigUint + &BigUint`: the sum.
#[verifier::external_body]
pub(crate) fn big_add(a: &BigUint, b: &BigUint) -> (r: BigUint)
    ensures
        big_value(r) == big_value(*a) + big_value(*b),
{
    a + b
}

/// `&BigUint - &BigUint`: the difference. The subtraction panics when the
/// subtrahend is the larger, so that case is excluded.
#[verifier::external_body]
pub(crate) fn big_sub(a: &BigUint, b: &BigUint) -> (r: BigUint)
    requires
        big_value(*a) >= big_value(*b),
    ensures
        big_value(r) == big_value(*a) - big_value(*b),
{
    a - b
}

/// `&BigUint * &BigUint`: the product.
#[verifier::external_body]
pub(crate) fn big_mul(a: &BigUint, b: &BigUint) -> (r: BigUint)
    ensures
        big_value(r) == big_value(*a) * big_value(*b),
{
    a * b
}

/// `&BigUint / &BigUint`: the quotient, rounded down. The division panics on
/// a zero divisor, so that case is excluded.
#[verifier::external_body]
pub(crate) fn big_div(a: &BigUint, b: &BigUint) -> (r: BigUint)
    requires
        big_value(*b) > 0,
    ensures
        big_value(r) == big_value(*a) / big_value(*b),
{
    a / b
}

/// `&BigUint % &BigUint`: the remainder. The operation panics on a zero
/// divisor, so that case is excluded.
#[verifier::external_body]
pub(crate) fn big_rem(a: &BigUint, b: &BigUint) -> (r: BigUint)
    requires
        big_value(*b) > 0,
    ensures
        big_value(r) == big_value(*a) % big_value(*b),
{
    a % b
}

/// `>=` on `BigUint`: the order of the numbers denoted.
#[verifier::external_body]
pub(crate) fn big_ge(a: &BigUint, b: &BigUint) -> (r: bool)
    ensures
        r == (big_value(*a) >= big_value(*b)),
{
    a >= b
}

/// `==` on `BigUint`: two values are equal exactly when they denote the same
/// number.
#[verifier::external_body]
pub(crate) fn big_eq(a: &BigUint, b: &BigUint) -> (r: bool)
    ensures
        r == (big_value(*a) == big_value(*b)),
{
    a == b
}

/// `ToPrimitive::to_u8` on a `BigUint`: the number itself where it fits in
/// eight bits, and nothing otherwise.
#[verifier::external_body]
pub(crate) fn big_to_u8(a: &BigUint) -> (r: Option<u8>)
    ensures
        big_value(*a) <= 255 ==> r == Some(big_value(*a) as u8),
        big_value(*a) > 255 ==> r is None,
{
    a.to_u8()
}

/// `Pow::pow` of a `&BigUint` with a `usize` exponent: the power.
#[verifier::external_body]
pub(crate) fn big_pow(a: &BigUint, exp: usize) -> (r: BigUint)
    ensures
        big_value(r) == power(big_value(*a), exp as nat),
{
    Pow::pow(a, exp)
}

/// `BigUint::to_radix_le`: the digits of the number in the given radix, the
/// least significant first and without superfluous zeros; zero is written
/// as the single digit 0. The radix has to lie between 2 and 256.
#[verifier::external_body]
pub(crate) fn big_to_radix_le(a: &BigUint, radix: u32) -> (r: Vec<u8>)
    requires
        2 <= radix <= 256,
    ensures
        r@.len() >= 1,
        digits_below(r@, radix as nat),
        digits_value(r@, radix as nat) == big_value(*a),
        big_value(*a) == 0 ==> r@.len() == 1,
        big_value(*a) > 0 ==> r@.last() != 0,
{
    a.to_radix_le(radix)
}

} // verus!
