//! Capability traits distinguishing types with meaningful negation and
//! sign (`Signed`) from types known never to hold negative values
//! (`Unsigned`).

use vstd::prelude::*;
use vstd::std_specs::ops::NegSpec;
use crate::number::Number;
use crate::number::One;
use crate::number::Zero;
use crate::sign::Sign;

verus! {

/// The canonical representative of a sign: the multiplicative identity,
/// the additive identity, or the negated multiplicative identity.
pub open spec fn of_sign_spec<T: Zero + One + core::ops::Neg<Output = T>>(s: Sign) -> T {
    match s {
        Sign::Positive => T::one_spec(),
        Sign::Zero => T::zero_spec(),
        Sign::Negative => T::one_spec().neg_spec(),
    }
}

/// A number with meaningful negation and a sign classification.
pub trait Signed: Number + core::ops::Neg<Output = Self> {
    /// The sign of the value, as a specification-level classification.
    spec fn sign_spec(&self) -> Sign;

    /// Classifies the value as `Negative`, `Zero` or `Positive`.
    fn sign(&self) -> (s: Sign)
        ensures
            s == self.sign_spec(),
    ;

    /// The canonical representative (`one`, `zero` or `-one`) of a sign.
    fn of_sign(s: Sign) -> (r: Self)
        requires
            Self::obeys_neg_spec(),
            Self::one_spec().neg_req(),
        ensures
            r == of_sign_spec::<Self>(s),
    {
        match s {
            Sign::Positive => Self::one(),
            Sign::Zero => Self::zero(),
            Sign::Negative => Self::one().neg(),
        }
    }

    /// Absolute value: `self` unchanged if its sign is `Positive` or
    /// `Zero`, else the negation of `self`.
    fn abs(self) -> (r: Self)
        requires
            Self::obeys_neg_spec(),
            self.sign_spec() == Sign::Negative ==> self.neg_req(),
        ensures
            self.sign_spec() == Sign::Negative ==> r == self.neg_spec(),
            self.sign_spec() != Sign::Negative ==> r == self,
    {
        match self.sign() {
            Sign::Negative => self.neg(),
            _ => self,
        }
    }

    /// The signum function: `of_sign` of this value's sign.
    fn sign_number(&self) -> (r: Self)
        requires
            Self::obeys_neg_spec(),
            Self::one_spec().neg_req(),
        ensures
            r == of_sign_spec::<Self>(self.sign_spec()),
    {
        Self::of_sign(self.sign())
    }

    /// Whether the sign is `Positive`.
    fn is_positive(&self) -> (r: bool)
        ensures
            r == (self.sign_spec() == Sign::Positive),
    {
        self.sign() == Sign::Positive
    }

    /// Whether the sign is `Negative`.
    fn is_negative(&self) -> (r: bool)
        ensures
            r == (self.sign_spec() == Sign::Negative),
    {
        self.sign() == Sign::Negative
    }
}

/// The signum of a signed value: the canonical representative of its sign.
pub open spec fn sign_number_spec<T: Signed>(x: T) -> T {
    of_sign_spec::<T>(x.sign_spec())
}

/// The canonical representative of a value's sign is its signum: for every
/// signed `x`, `of_sign` applied to the sign of `x` equals `sign_number`
/// of `x`.
pub proof fn lemma_of_sign_of_sign_is_sign_number<T: Signed>(x: T)
    ensures
        of_sign_spec::<T>(x.sign_spec()) == sign_number_spec(x),
{
}

/// A number known never to hold negative values. Pure capability marker.
pub trait Unsigned: Number {

}

impl Signed for i8 {
    open spec fn sign_spec(&self) -> Sign {
        if *self < 0 {
            Sign::Negative
        } else if *self == 0 {
            Sign::Zero
        } else {
            Sign::Positive
        }
    }

    fn sign(&self) -> (s: Sign) {
        if *self < 0 {
            Sign::Negative
        } else if *self == 0 {
            Sign::Zero
        } else {
            Sign::Positive
        }
    }
}

impl Signed for i16 {
    open spec fn sign_spec(&self) -> Sign {
        if *self < 0 {
            Sign::Negative
        } else if *self == 0 {
            Sign::Zero
        } else {
            Sign::Positive
        }
    }

    fn sign(&self) -> (s: Sign) {
        if *self < 0 {
            Sign::Negative
        } else if *self == 0 {
            Sign::Zero
        } else {
            Sign::Positive
        }
    }
}

impl Signed for i32 {
    open spec fn sign_spec(&self) -> Sign {
        if *self < 0 {
            Sign::Negative
        } else if *self == 0 {
            Sign::Zero
        } else {
            Sign::Positive
        }
    }

    fn sign(&self) -> (s: Sign) {
        if *self < 0 {
            Sign::Negative
        } else if *self == 0 {
            Sign::Zero
        } else {
            Sign::Positive
        }
    }
}

impl Signed for i64 {
    open spec fn sign_spec(&self) -> Sign {
        if *self < 0 {
            Sign::Negative
        } else if *self == 0 {
            Sign::Zero
        } else {
            Sign::Positive
        }
    }

    fn sign(&self) -> (s: Sign) {
        if *self < 0 {
            Sign::Negative
        } else if *self == 0 {
            Sign::Zero
        } else {
            Sign::Positive
        }
    }
}

impl Signed for isize {
    open spec fn sign_spec(&self) -> Sign {
        if *self < 0 {
            Sign::Negative
        } else if *self == 0 {
            Sign::Zero
        } else {
            Sign::Positive
        }
    }

    fn sign(&self) -> (s: Sign) {
        if *self < 0 {
            Sign::Negative
        } else if *self == 0 {
            Sign::Zero
        } else {
            Sign::Positive
        }
    }
}

impl Unsigned for u8 {

}

impl Unsigned for u16 {

}

impl Unsigned for u32 {

}

impl Unsigned for u64 {

}

impl Unsigned for usize {

}

} // verus!
