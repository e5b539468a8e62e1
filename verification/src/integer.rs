//! Arbitrary-precision integers, as `num_bigint` provides them.
//!
//! A `BigInt` is opaque to the verifier. Everything the rest of the library
//! knows about one is stated over `int_of`, the mathematical integer it
//! stands for, by the contracts in this module. None of them is proved: each
//! restates what `num_bigint` and `num_traits` document.

use num_bigint::BigInt;
use num_traits::Euclid;
use num_traits::Signed;
use num_traits::ToPrimitive;
use vstd::prelude::*;

verus! {

/// `num_bigint::BigInt`, a signed integer of any size. Nothing inside it is
/// visible here.
#[verifier::external_type_specification]
#[verifier::external_body]
pub struct ExBigInt(num_bigint::BigInt);

/// The mathematical integer that a `BigInt` stands for. It is a function of
/// the big integer alone; what is known of it is what the contracts below
/// say of the calls that make or read one.
pub uninterp spec fn int_of(b: BigInt) -> int;

/// Whether an integer can be held in an `i128`.
pub open spec fn fits_i128(n: int) -> bool {
    i128::MIN <= n <= i128::MAX
}

/// `ToPrimitive::to_i128` on a `BigInt`: the integer itself where it lies in
/// the range of `i128`, and `None` where it does not.
#[verifier::external_body]
pub(crate) fn big_to_i128(b: &BigInt) -> (r: Option<i128>)
    ensures
        fits_i128(int_of(*b)) ==> r == Some(int_of(*b) as i128),
        !fits_i128(int_of(*b)) ==> r.is_none(),
{
    b.to_i128()
}

/// `BigInt::from` on an `i128`: the big integer of the same value.
#[verifier::external_body]
pub(crate) fn big_from_i128(n: i128) -> (b: BigInt)
    ensures
        int_of(b) == n,
{
    BigInt::from(n)
}

/// `Clone::clone` on a `BigInt`: a big integer of the same value.
#[verifier::external_body]
pub(crate) fn big_clone(b: &BigInt) -> (c: BigInt)
    ensures
        int_of(c) == int_of(*b),
{
    b.clone()
}

/// `Signed::is_positive` on a `BigInt`: whether it is greater than zero.
#[verifier::external_body]
pub(crate) fn big_is_positive(b: &BigInt) -> (r: bool)
    ensures
        r == (int_of(*b) > 0),
{
    b.is_positive()
}

/// `Euclid::rem_euclid` on two `BigInt`s: the least non-negative remainder
/// of the first modulo the second. The call panics on a zero divisor; only
/// positive divisors are admitted here.
#[verifier::external_body]
pub(crate) fn big_rem_euclid(a: &BigInt, m: &BigInt) -> (r: BigInt)
    requires
        int_of(*m) > 0,
    ensures
        int_of(r) == int_of(*a) % int_of(*m),
{
    a.rem_euclid(m)
}

} // verus!
