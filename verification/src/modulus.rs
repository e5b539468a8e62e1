//! The modulus descriptor of a numeric type, with the two primitives that
//! take a field element to a big integer and back.

use crate::integer::big_clone;
use crate::integer::big_is_positive;
use crate::integer::big_rem_euclid;
use crate::integer::int_of;
use crate::value::Value;
use crate::value::ValueView;
use num_bigint::BigInt;
use std::rc::Rc;
use vstd::prelude::*;

verus! {

/// The integer that stands for `n` in a numeric type: its least non-negative
/// residue where the type has a modulus, `n` itself where it has none.
pub open spec fn reduced(modulus: Option<int>, n: int) -> int {
    match modulus {
        Some(m) => n % m,
        None => n,
    }
}

/// A numeric type of the interpreter: the integers modulo a positive
/// modulus, or all integers.
#[derive(Debug)]
pub struct NatType {
    modulus: Option<BigInt>,
}

impl NatType {
    #[verifier::type_invariant]
    spec fn positive_modulus(self) -> bool {
        self.modulus matches Some(m) ==> int_of(m) > 0
    }

    /// The modulus, if the type has one.
    pub closed spec fn modulus_int(&self) -> Option<int> {
        match self.modulus {
            Some(m) => Some(int_of(m)),
            None => None,
        }
    }

    /// The type of all integers.
    pub fn unbounded() -> (t: NatType)
        ensures
            t.modulus_int() is None,
    {
        NatType { modulus: None }
    }

    /// The type of the integers modulo `m`; none where `m` is not positive.
    pub fn with_modulus(m: BigInt) -> (t: Option<NatType>)
        ensures
            int_of(m) > 0 ==> t is Some && t->Some_0.modulus_int() == Some(int_of(m)),
            int_of(m) <= 0 ==> t is None,
    {
        if big_is_positive(&m) {
            Some(NatType { modulus: Some(m) })
        } else {
            None
        }
    }

    /// The modulus, if the type has one. It is positive.
    pub fn modulus(&self) -> (m: Option<&BigInt>)
        ensures
            m is Some <==> self.modulus_int() is Some,
            m matches Some(k) ==> self.modulus_int() == Some(int_of(*k)) && int_of(*k) > 0,
    {
        proof {
            use_type_invariant(self);
        }
        match &self.modulus {
            Some(m) => Some(m),
            None => None,
        }
    }

    /// The integer that a value of this type holds.
    pub fn to_bigint(&self, v: &Value) -> (n: BigInt)
        requires
            v@ is Int,
        ensures
            v@ == ValueView::Int(int_of(n)),
    {
        big_clone(v.as_int())
    }

    /// The value of this type that stands for an integer.
    pub fn from_bigint(&self, n: &BigInt) -> (v: Value)
        ensures
            v@ == ValueView::Int(reduced(self.modulus_int(), int_of(*n))),
    {
        proof {
            use_type_invariant(self);
        }
        match &self.modulus {
            Some(m) => Value::Int(Rc::new(big_rem_euclid(n, m))),
            None => Value::Int(Rc::new(big_clone(n))),
        }
    }
}

} // verus!
