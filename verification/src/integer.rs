//! Divisibility-aware capability traits: `Integer` (divisibility rules)
//! and `Euclidean` (greatest common divisor and least common multiple).

use vstd::prelude::*;
use vstd::arithmetic::mul::lemma_mul_is_commutative;
use crate::euclid::divides;
use crate::euclid::gcd_nat;
use crate::euclid::gcd_u64;
use crate::euclid::lemma_divides_iff_mod;
use crate::euclid::lemma_divides_neg;
use crate::euclid::lemma_exact_div;
use crate::euclid::lemma_gcd_divides_product;
use crate::euclid::lemma_gcd_le;
use crate::euclid::lemma_gcd_zero;
use crate::euclid::mag;
use crate::number::Number;
use crate::number::One;

verus! {

/// A number that behaves like an integer (an integral domain member):
/// it has divisibility rules, stated against the value's mathematical
/// model `to_int`.
pub trait Integer: Number {
    /// The mathematical value this machine value stands for.
    spec fn to_int(self) -> int;

    /// When `is_factor_of` may be asked: the divisor must be usable as a
    /// divisor by the concrete type (for machine integers, nonzero, and
    /// for signed widths not the overflowing minimum-value case).
    spec fn factor_req(self, other: Self) -> bool;

    /// Whether `self` divides `other` with zero remainder.
    fn is_factor_of(self, other: Self) -> (r: bool)
        requires
            self.factor_req(other),
        ensures
            r == divides(self.to_int(), other.to_int()),
    ;

    /// Whether `other` divides `self`: the flip of `is_factor_of`.
    fn is_divisible_by(self, other: Self) -> (r: bool)
        requires
            other.factor_req(self),
        ensures
            r == divides(other.to_int(), self.to_int()),
    {
        other.is_factor_of(self)
    }

    /// Whether `self` divides the multiplicative identity.
    fn is_unit(self) -> (r: bool)
        requires
            self.factor_req(Self::one_spec()),
        ensures
            r == divides(self.to_int(), Self::one_spec().to_int()),
    {
        self.is_factor_of(Self::one())
    }
}

/// A euclidean domain: an integer-like type with a remainder operation,
/// exposing greatest common divisor and least common multiple.
///
/// `gcd` returns the greatest common divisor of the magnitudes of its
/// arguments; `lcm` returns the product divided by the greatest common
/// divisor, so that `lcm(a, b) * gcd(a, b) == a * b` exactly.
pub trait Euclidean: Integer + core::ops::Rem<Self, Output = Self> {
    /// When `gcd` may be asked (for signed widths this excludes the
    /// minimum representable value, whose magnitude does not fit).
    spec fn gcd_req(self, other: Self) -> bool;

    /// When `lcm` may be asked: both arguments usable by `gcd`, not both
    /// zero, and the intermediate product representable.
    spec fn lcm_req(self, other: Self) -> bool;

    /// Greatest common divisor of the magnitudes of `self` and `other`.
    fn gcd(self, other: Self) -> (r: Self)
        requires
            self.gcd_req(other),
        ensures
            r.to_int() == gcd_nat(mag(self.to_int()), mag(other.to_int())),
    ;

    /// Least common multiple: the exact quotient of the product by the
    /// greatest common divisor (negative when the product is negative).
    fn lcm(self, other: Self) -> (r: Self)
        requires
            self.lcm_req(other),
        ensures
            r.to_int() * gcd_nat(mag(self.to_int()), mag(other.to_int())) == self.to_int()
                * other.to_int(),
    ;
}

impl Integer for u8 {
    open spec fn to_int(self) -> int {
        self as int
    }

    open spec fn factor_req(self, other: Self) -> bool {
        self != 0
    }

    fn is_factor_of(self, other: Self) -> (r: bool) {
        proof {
            lemma_divides_iff_mod(self as int, other as int);
        }
        other % self == 0
    }
}

impl Euclidean for u8 {
    open spec fn gcd_req(self, other: Self) -> bool {
        true
    }

    open spec fn lcm_req(self, other: Self) -> bool {
        &&& !(self == 0 && other == 0)
        &&& self * other <= u8::MAX
    }

    fn gcd(self, other: Self) -> (r: Self) {
        proof {
            if self > 0 {
                lemma_gcd_le(self as nat, other as nat);
            } else {
                lemma_gcd_zero(other as nat);
            }
        }
        gcd_u64(self as u64, other as u64) as u8
    }

    fn lcm(self, other: Self) -> (r: Self) {
        let g = self.gcd(other);
        let p = self * other;
        proof {
            lemma_gcd_divides_product(self as int, other as int);
            let q = choose|q: int| p as int == #[trigger] (g as int * q);
            lemma_exact_div(p as int, g as int, q);
            lemma_mul_is_commutative(g as int, q);
        }
        p / g
    }
}

impl Integer for u16 {
    open spec fn to_int(self) -> int {
        self as int
    }

    open spec fn factor_req(self, other: Self) -> bool {
        self != 0
    }

    fn is_factor_of(self, other: Self) -> (r: bool) {
        proof {
            lemma_divides_iff_mod(self as int, other as int);
        }
        other % self == 0
    }
}

impl Euclidean for u16 {
    open spec fn gcd_req(self, other: Self) -> bool {
        true
    }

    open spec fn lcm_req(self, other: Self) -> bool {
        &&& !(self == 0 && other == 0)
        &&& self * other <= u16::MAX
    }

    fn gcd(self, other: Self) -> (r: Self) {
        proof {
            if self > 0 {
                lemma_gcd_le(self as nat, other as nat);
            } else {
                lemma_gcd_zero(other as nat);
            }
        }
        gcd_u64(self as u64, other as u64) as u16
    }

    fn lcm(self, other: Self) -> (r: Self) {
        let g = self.gcd(other);
        let p = self * other;
        proof {
            lemma_gcd_divides_product(self as int, other as int);
            let q = choose|q: int| p as int == #[trigger] (g as int * q);
            lemma_exact_div(p as int, g as int, q);
            lemma_mul_is_commutative(g as int, q);
        }
        p / g
    }
}

impl Integer for u32 {
    open spec fn to_int(self) -> int {
        self as int
    }

    open spec fn factor_req(self, other: Self) -> bool {
        self != 0
    }

    fn is_factor_of(self, other: Self) -> (r: bool) {
        proof {
            lemma_divides_iff_mod(self as int, other as int);
        }
        other % self == 0
    }
}

impl Euclidean for u32 {
    open spec fn gcd_req(self, other: Self) -> bool {
        true
    }

    open spec fn lcm_req(self, other: Self) -> bool {
        &&& !(self == 0 && other == 0)
        &&& self * other <= u32::MAX
    }

    fn gcd(self, other: Self) -> (r: Self) {
        proof {
            if self > 0 {
                lemma_gcd_le(self as nat, other as nat);
            } else {
                lemma_gcd_zero(other as nat);
            }
        }
        gcd_u64(self as u64, other as u64) as u32
    }

    fn lcm(self, other: Self) -> (r: Self) {
        let g = self.gcd(other);
        let p = self * other;
        proof {
            lemma_gcd_divides_product(self as int, other as int);
            let q = choose|q: int| p as int == #[trigger] (g as int * q);
            lemma_exact_div(p as int, g as int, q);
            lemma_mul_is_commutative(g as int, q);
        }
        p / g
    }
}

impl Integer for u64 {
    open spec fn to_int(self) -> int {
        self as int
    }

    open spec fn factor_req(self, other: Self) -> bool {
        self != 0
    }

    fn is_factor_of(self, other: Self) -> (r: bool) {
        proof {
            lemma_divides_iff_mod(self as int, other as int);
        }
        other % self == 0
    }
}

impl Euclidean for u64 {
    open spec fn gcd_req(self, other: Self) -> bool {
        true
    }

    open spec fn lcm_req(self, other: Self) -> bool {
        &&& !(self == 0 && other == 0)
        &&& self * other <= u64::MAX
    }

    fn gcd(self, other: Self) -> (r: Self) {
        proof {
            if self > 0 {
                lemma_gcd_le(self as nat, other as nat);
            } else {
                lemma_gcd_zero(other as nat);
            }
        }
        gcd_u64(self as u64, other as u64) as u64
    }

    fn lcm(self, other: Self) -> (r: Self) {
        let g = self.gcd(other);
        let p = self * other;
        proof {
            lemma_gcd_divides_product(self as int, other as int);
            let q = choose|q: int| p as int == #[trigger] (g as int * q);
            lemma_exact_div(p as int, g as int, q);
            lemma_mul_is_commutative(g as int, q);
        }
        p / g
    }
}

impl Integer for usize {
    open spec fn to_int(self) -> int {
        self as int
    }

    open spec fn factor_req(self, other: Self) -> bool {
        self != 0
    }

    fn is_factor_of(self, other: Self) -> (r: bool) {
        proof {
            lemma_divides_iff_mod(self as int, other as int);
        }
        other % self == 0
    }
}

impl Euclidean for usize {
    open spec fn gcd_req(self, other: Self) -> bool {
        true
    }

    open spec fn lcm_req(self, other: Self) -> bool {
        &&& !(self == 0 && other == 0)
        &&& self * other <= usize::MAX
    }

    fn gcd(self, other: Self) -> (r: Self) {
        proof {
            if self > 0 {
                lemma_gcd_le(self as nat, other as nat);
            } else {
                lemma_gcd_zero(other as nat);
            }
        }
        gcd_u64(self as u64, other as u64) as usize
    }

    fn lcm(self, other: Self) -> (r: Self) {
        let g = self.gcd(other);
        let p = self * other;
        proof {
            lemma_gcd_divides_product(self as int, other as int);
            let q = choose|q: int| p as int == #[trigger] (g as int * q);
            lemma_exact_div(p as int, g as int, q);
            lemma_mul_is_commutative(g as int, q);
        }
        p / g
    }
}

impl Integer for i8 {
    open spec fn to_int(self) -> int {
        self as int
    }

    open spec fn factor_req(self, other: Self) -> bool {
        self != 0 && !(other == i8::MIN && self == -1)
    }

    fn is_factor_of(self, other: Self) -> (r: bool) {
        proof {
            lemma_divides_iff_mod(self as int, other as int);
            lemma_divides_iff_mod(self as int, -(other as int));
            lemma_divides_neg(self as int, other as int);
        }
        other % self == 0
    }
}

impl Euclidean for i8 {
    open spec fn gcd_req(self, other: Self) -> bool {
        self != i8::MIN && other != i8::MIN
    }

    open spec fn lcm_req(self, other: Self) -> bool {
        &&& self != i8::MIN && other != i8::MIN
        &&& !(self == 0 && other == 0)
        &&& i8::MIN <= self * other <= i8::MAX
    }

    fn gcd(self, other: Self) -> (r: Self) {
        let sa = if self < 0 {
            -self
        } else {
            self
        };
        let sb = if other < 0 {
            -other
        } else {
            other
        };
        proof {
            if sa > 0 {
                lemma_gcd_le(sa as nat, sb as nat);
            } else {
                lemma_gcd_zero(sb as nat);
            }
        }
        gcd_u64(sa as u64, sb as u64) as i8
    }

    fn lcm(self, other: Self) -> (r: Self) {
        let g = self.gcd(other);
        let p = self * other;
        proof {
            lemma_gcd_divides_product(self as int, other as int);
            let q = choose|q: int| p as int == #[trigger] (g as int * q);
            lemma_exact_div(p as int, g as int, q);
            lemma_mul_is_commutative(g as int, q);
        }
        p / g
    }
}

impl Integer for i16 {
    open spec fn to_int(self) -> int {
        self as int
    }

    open spec fn factor_req(self, other: Self) -> bool {
        self != 0 && !(other == i16::MIN && self == -1)
    }

    fn is_factor_of(self, other: Self) -> (r: bool) {
        proof {
            lemma_divides_iff_mod(self as int, other as int);
            lemma_divides_iff_mod(self as int, -(other as int));
            lemma_divides_neg(self as int, other as int);
        }
        other % self == 0
    }
}

impl Euclidean for i16 {
    open spec fn gcd_req(self, other: Self) -> bool {
        self != i16::MIN && other != i16::MIN
    }

    open spec fn lcm_req(self, other: Self) -> bool {
        &&& self != i16::MIN && other != i16::MIN
        &&& !(self == 0 && other == 0)
        &&& i16::MIN <= self * other <= i16::MAX
    }

    fn gcd(self, other: Self) -> (r: Self) {
        let sa = if self < 0 {
            -self
        } else {
            self
        };
        let sb = if other < 0 {
            -other
        } else {
            other
        };
        proof {
            if sa > 0 {
                lemma_gcd_le(sa as nat, sb as nat);
            } else {
                lemma_gcd_zero(sb as nat);
            }
        }
        gcd_u64(sa as u64, sb as u64) as i16
    }

    fn lcm(self, other: Self) -> (r: Self) {
        let g = self.gcd(other);
        let p = self * other;
        proof {
            lemma_gcd_divides_product(self as int, other as int);
            let q = choose|q: int| p as int == #[trigger] (g as int * q);
            lemma_exact_div(p as int, g as int, q);
            lemma_mul_is_commutative(g as int, q);
        }
        p / g
    }
}

impl Integer for i32 {
    open spec fn to_int(self) -> int {
        self as int
    }

    open spec fn factor_req(self, other: Self) -> bool {
        self != 0 && !(other == i32::MIN && self == -1)
    }

    fn is_factor_of(self, other: Self) -> (r: bool) {
        proof {
            lemma_divides_iff_mod(self as int, other as int);
            lemma_divides_iff_mod(self as int, -(other as int));
            lemma_divides_neg(self as int, other as int);
        }
        other % self == 0
    }
}

impl Euclidean for i32 {
    open spec fn gcd_req(self, other: Self) -> bool {
        self != i32::MIN && other != i32::MIN
    }

    open spec fn lcm_req(self, other: Self) -> bool {
        &&& self != i32::MIN && other != i32::MIN
        &&& !(self == 0 && other == 0)
        &&& i32::MIN <= self * other <= i32::MAX
    }

    fn gcd(self, other: Self) -> (r: Self) {
        let sa = if self < 0 {
            -self
        } else {
            self
        };
        let sb = if other < 0 {
            -other
        } else {
            other
        };
        proof {
            if sa > 0 {
                lemma_gcd_le(sa as nat, sb as nat);
            } else {
                lemma_gcd_zero(sb as nat);
            }
        }
        gcd_u64(sa as u64, sb as u64) as i32
    }

    fn lcm(self, other: Self) -> (r: Self) {
        let g = self.gcd(other);
        let p = self * other;
        proof {
            lemma_gcd_divides_product(self as int, other as int);
            let q = choose|q: int| p as int == #[trigger] (g as int * q);
            lemma_exact_div(p as int, g as int, q);
            lemma_mul_is_commutative(g as int, q);
        }
        p / g
    }
}

impl Integer for i64 {
    open spec fn to_int(self) -> int {
        self as int
    }

    open spec fn factor_req(self, other: Self) -> bool {
        self != 0 && !(other == i64::MIN && self == -1)
    }

    fn is_factor_of(self, other: Self) -> (r: bool) {
        proof {
            lemma_divides_iff_mod(self as int, other as int);
            lemma_divides_iff_mod(self as int, -(other as int));
            lemma_divides_neg(self as int, other as int);
        }
        other % self == 0
    }
}

impl Euclidean for i64 {
    open spec fn gcd_req(self, other: Self) -> bool {
        self != i64::MIN && other != i64::MIN
    }

    open spec fn lcm_req(self, other: Self) -> bool {
        &&& self != i64::MIN && other != i64::MIN
        &&& !(self == 0 && other == 0)
        &&& i64::MIN <= self * other <= i64::MAX
    }

    fn gcd(self, other: Self) -> (r: Self) {
        let sa = if self < 0 {
            -self
        } else {
            self
        };
        let sb = if other < 0 {
            -other
        } else {
            other
        };
        proof {
            if sa > 0 {
                lemma_gcd_le(sa as nat, sb as nat);
            } else {
                lemma_gcd_zero(sb as nat);
            }
        }
        gcd_u64(sa as u64, sb as u64) as i64
    }

    fn lcm(self, other: Self) -> (r: Self) {
        let g = self.gcd(other);
        let p = self * other;
        proof {
            lemma_gcd_divides_product(self as int, other as int);
            let q = choose|q: int| p as int == #[trigger] (g as int * q);
            lemma_exact_div(p as int, g as int, q);
            lemma_mul_is_commutative(g as int, q);
        }
        p / g
    }
}

impl Integer for isize {
    open spec fn to_int(self) -> int {
        self as int
    }

    open spec fn factor_req(self, other: Self) -> bool {
        self != 0 && !(other == isize::MIN && self == -1)
    }

    fn is_factor_of(self, other: Self) -> (r: bool) {
        proof {
            lemma_divides_iff_mod(self as int, other as int);
            lemma_divides_iff_mod(self as int, -(other as int));
            lemma_divides_neg(self as int, other as int);
        }
        other % self == 0
    }
}

impl Euclidean for isize {
    open spec fn gcd_req(self, other: Self) -> bool {
        self != isize::MIN && other != isize::MIN
    }

    open spec fn lcm_req(self, other: Self) -> bool {
        &&& self != isize::MIN && other != isize::MIN
        &&& !(self == 0 && other == 0)
        &&& isize::MIN <= self * other <= isize::MAX
    }

    fn gcd(self, other: Self) -> (r: Self) {
        let sa = if self < 0 {
            -self
        } else {
            self
        };
        let sb = if other < 0 {
            -other
        } else {
            other
        };
        proof {
            if sa > 0 {
                lemma_gcd_le(sa as nat, sb as nat);
            } else {
                lemma_gcd_zero(sb as nat);
            }
        }
        gcd_u64(sa as u64, sb as u64) as isize
    }

    fn lcm(self, other: Self) -> (r: Self) {
        let g = self.gcd(other);
        let p = self * other;
        proof {
            lemma_gcd_divides_product(self as int, other as int);
            let q = choose|q: int| p as int == #[trigger] (g as int * q);
            lemma_exact_div(p as int, g as int, q);
            lemma_mul_is_commutative(g as int, q);
        }
        p / g
    }
}

} // verus!
