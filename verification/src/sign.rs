//! The `Sign` type: a three-valued sign abstraction with its own
//! multiplicative monoid and negation.

use vstd::prelude::*;
use vstd::std_specs::ops::MulSpec;
use vstd::std_specs::ops::NegSpec;
use crate::number::Zero;

verus! {

/// The sign of a value, independent of magnitude.
/// Totally ordered: `Negative < Zero < Positive`.
#[derive(PartialEq, Eq, Structural, PartialOrd, Ord, Debug, Clone, Copy)]
pub enum Sign {
    Negative,
    Zero,
    Positive,
}

impl Sign {
    /// The sign's own absolute value: `Zero` stays `Zero`, everything else
    /// maps to `Positive`.
    pub open spec fn abs_spec(self) -> Sign {
        if self == Sign::Zero {
            Sign::Zero
        } else {
            Sign::Positive
        }
    }

    /// Absolute value of a sign; the result is `Zero` if and only if the
    /// sign itself is `Zero`, and `Positive` otherwise.
    pub fn abs(&self) -> (r: Sign)
        ensures
            r == self.abs_spec(),
            (r == Sign::Zero) <==> (*self == Sign::Zero),
            (*self != Sign::Zero) ==> r == Sign::Positive,
    {
        match self {
            Sign::Zero => Sign::Zero,
            _ => Sign::Positive,
        }
    }
}

impl core::ops::Mul for Sign {
    type Output = Sign;

    /// Sign-of-product rule: `Zero` absorbs, equal signs give `Positive`,
    /// different signs give `Negative`.
    fn mul(self, rhs: Sign) -> Sign {
        match (self, rhs) {
            (Sign::Zero, _) | (_, Sign::Zero) => Sign::Zero,
            (Sign::Negative, Sign::Negative) | (Sign::Positive, Sign::Positive) => Sign::Positive,
            _ => Sign::Negative,
        }
    }
}

impl vstd::std_specs::ops::MulSpecImpl for Sign {
    open spec fn obeys_mul_spec() -> bool {
        true
    }

    open spec fn mul_req(self, rhs: Sign) -> bool {
        true
    }

    open spec fn mul_spec(self, rhs: Sign) -> Sign {
        match (self, rhs) {
            (Sign::Zero, _) | (_, Sign::Zero) => Sign::Zero,
            (Sign::Negative, Sign::Negative) | (Sign::Positive, Sign::Positive) => Sign::Positive,
            _ => Sign::Negative,
        }
    }
}

impl core::ops::Neg for Sign {
    type Output = Sign;

    /// Negation swaps `Negative` and `Positive` and fixes `Zero`.
    fn neg(self) -> Sign {
        match self {
            Sign::Negative => Sign::Positive,
            Sign::Zero => Sign::Zero,
            Sign::Positive => Sign::Negative,
        }
    }
}

impl vstd::std_specs::ops::NegSpecImpl for Sign {
    open spec fn obeys_neg_spec() -> bool {
        true
    }

    open spec fn neg_req(self) -> bool {
        true
    }

    open spec fn neg_spec(self) -> Sign {
        match self {
            Sign::Negative => Sign::Positive,
            Sign::Zero => Sign::Zero,
            Sign::Positive => Sign::Negative,
        }
    }
}

impl Zero for Sign {
    open spec fn zero_spec() -> Sign {
        Sign::Zero
    }

    fn zero() -> Sign {
        Sign::Zero
    }

    fn is_zero(&self) -> bool {
        *self == Sign::Zero
    }
}

/// Sign multiplication is commutative.
pub proof fn lemma_sign_mul_comm(a: Sign, b: Sign)
    ensures
        a.mul_spec(b) == b.mul_spec(a),
{
}

/// Sign multiplication is associative.
pub proof fn lemma_sign_mul_assoc(a: Sign, b: Sign, c: Sign)
    ensures
        a.mul_spec(b).mul_spec(c) == a.mul_spec(b.mul_spec(c)),
{
}

/// `Positive` is the identity of sign multiplication.
pub proof fn lemma_sign_mul_identity(a: Sign)
    ensures
        a.mul_spec(Sign::Positive) == a,
        Sign::Positive.mul_spec(a) == a,
{
}

/// `Zero` absorbs under sign multiplication.
pub proof fn lemma_sign_mul_absorb(a: Sign)
    ensures
        a.mul_spec(Sign::Zero) == Sign::Zero,
        Sign::Zero.mul_spec(a) == Sign::Zero,
{
}

/// Sign negation is an involution that fixes `Zero`.
pub proof fn lemma_sign_neg_involutive(a: Sign)
    ensures
        a.neg_spec().neg_spec() == a,
        Sign::Zero.neg_spec() == Sign::Zero,
{
}

} // verus!
