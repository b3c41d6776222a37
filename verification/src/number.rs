//! Identity traits (`Zero`, `One`) and the algebraic hierarchy
//! (`Group`, `Ring`, `Number`).
//!
//! The hierarchy traits are pure capability markers: a blanket
//! implementation makes any type with the required operations a member, so
//! membership is structural, never declared per type.

use vstd::prelude::*;

verus! {

/// Additive identity: `zero()` returns the value for which
/// `x + zero() == zero() + x == x` is expected to hold for every `x`.
pub trait Zero: Sized {
    /// The additive identity as a specification-level value.
    spec fn zero_spec() -> Self;

    /// Returns the additive identity.
    fn zero() -> (r: Self)
        ensures
            r == Self::zero_spec(),
    ;

    /// Reports whether a value equals the additive identity.
    fn is_zero(&self) -> (r: bool)
        ensures
            r == (*self == Self::zero_spec()),
    ;
}

/// Multiplicative identity: `one()` returns the value for which
/// `x * one() == one() * x == x` is expected to hold for every `x`.
pub trait One: Sized {
    /// The multiplicative identity as a specification-level value.
    spec fn one_spec() -> Self;

    /// Returns the multiplicative identity.
    fn one() -> (r: Self)
        ensures
            r == Self::one_spec(),
    ;

    /// Reports whether a value equals the multiplicative identity.
    fn is_one(&self) -> (r: bool)
        ensures
            r == (*self == Self::one_spec()),
    ;
}

/// A group: equality, an additive identity, and invertible addition
/// (subtraction). Purely a composition marker.
pub trait Group: PartialEq + Zero + core::ops::Add<Self, Output = Self> + core::ops::Sub<
    Self,
    Output = Self,
> {

}

impl<T> Group for T where
    T: PartialEq + Zero + core::ops::Add<T, Output = T> + core::ops::Sub<T, Output = T>
{

}

/// A ring: a group closed under an associative multiplication with
/// identity. Multiplication is not assumed commutative or invertible.
pub trait Ring: Group + One + core::ops::Mul<Self, Output = Self> {

}

impl<T> Ring for T where T: Group + One + core::ops::Mul<T, Output = T> {

}

/// A generic number: a ring with a notion of division.
pub trait Number: Ring + core::ops::Div<Self, Output = Self> {

}

impl<T> Number for T where T: Ring + core::ops::Div<T, Output = T> {

}

impl Zero for u8 {
    open spec fn zero_spec() -> u8 {
        0u8
    }

    fn zero() -> u8 {
        0
    }

    fn is_zero(&self) -> bool {
        *self == 0
    }
}

impl One for u8 {
    open spec fn one_spec() -> u8 {
        1u8
    }

    fn one() -> u8 {
        1
    }

    fn is_one(&self) -> bool {
        *self == 1
    }
}

impl Zero for u16 {
    open spec fn zero_spec() -> u16 {
        0u16
    }

    fn zero() -> u16 {
        0
    }

    fn is_zero(&self) -> bool {
        *self == 0
    }
}

impl One for u16 {
    open spec fn one_spec() -> u16 {
        1u16
    }

    fn one() -> u16 {
        1
    }

    fn is_one(&self) -> bool {
        *self == 1
    }
}

impl Zero for u32 {
    open spec fn zero_spec() -> u32 {
        0u32
    }

    fn zero() -> u32 {
        0
    }

    fn is_zero(&self) -> bool {
        *self == 0
    }
}

impl One for u32 {
    open spec fn one_spec() -> u32 {
        1u32
    }

    fn one() -> u32 {
        1
    }

    fn is_one(&self) -> bool {
        *self == 1
    }
}

impl Zero for u64 {
    open spec fn zero_spec() -> u64 {
        0u64
    }

    fn zero() -> u64 {
        0
    }

    fn is_zero(&self) -> bool {
        *self == 0
    }
}

impl One for u64 {
    open spec fn one_spec() -> u64 {
        1u64
    }

    fn one() -> u64 {
        1
    }

    fn is_one(&self) -> bool {
        *self == 1
    }
}

impl Zero for usize {
    open spec fn zero_spec() -> usize {
        0usize
    }

    fn zero() -> usize {
        0
    }

    fn is_zero(&self) -> bool {
        *self == 0
    }
}

impl One for usize {
    open spec fn one_spec() -> usize {
        1usize
    }

    fn one() -> usize {
        1
    }

    fn is_one(&self) -> bool {
        *self == 1
    }
}

impl Zero for i8 {
    open spec fn zero_spec() -> i8 {
        0i8
    }

    fn zero() -> i8 {
        0
    }

    fn is_zero(&self) -> bool {
        *self == 0
    }
}

impl One for i8 {
    open spec fn one_spec() -> i8 {
        1i8
    }

    fn one() -> i8 {
        1
    }

    fn is_one(&self) -> bool {
        *self == 1
    }
}

impl Zero for i16 {
    open spec fn zero_spec() -> i16 {
        0i16
    }

    fn zero() -> i16 {
        0
    }

    fn is_zero(&self) -> bool {
        *self == 0
    }
}

impl One for i16 {
    open spec fn one_spec() -> i16 {
        1i16
    }

    fn one() -> i16 {
        1
    }

    fn is_one(&self) -> bool {
        *self == 1
    }
}

impl Zero for i32 {
    open spec fn zero_spec() -> i32 {
        0i32
    }

    fn zero() -> i32 {
        0
    }

    fn is_zero(&self) -> bool {
        *self == 0
    }
}

impl One for i32 {
    open spec fn one_spec() -> i32 {
        1i32
    }

    fn one() -> i32 {
        1
    }

    fn is_one(&self) -> bool {
        *self == 1
    }
}

impl Zero for i64 {
    open spec fn zero_spec() -> i64 {
        0i64
    }

    fn zero() -> i64 {
        0
    }

    fn is_zero(&self) -> bool {
        *self == 0
    }
}

impl One for i64 {
    open spec fn one_spec() -> i64 {
        1i64
    }

    fn one() -> i64 {
        1
    }

    fn is_one(&self) -> bool {
        *self == 1
    }
}

impl Zero for isize {
    open spec fn zero_spec() -> isize {
        0isize
    }

    fn zero() -> isize {
        0
    }

    fn is_zero(&self) -> bool {
        *self == 0
    }
}

impl One for isize {
    open spec fn one_spec() -> isize {
        1isize
    }

    fn one() -> isize {
        1
    }

    fn is_one(&self) -> bool {
        *self == 1
    }
}

} // verus!
