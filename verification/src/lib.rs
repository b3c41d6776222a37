//! Generic arithmetic foundations: a hierarchy of algebraic capability
//! traits (additive and multiplicative identities, group, ring, number,
//! integer, euclidean domain, signed and unsigned), a three-valued sign
//! abstraction, binary GCD/LCM, and exponentiation by squaring, with
//! machine-checked contracts throughout.

pub mod euclid;
pub mod funcs;
pub mod integer;
pub mod number;
pub mod sign;
pub mod signed;

pub use euclid::divides;
pub use euclid::gcd_nat;
pub use euclid::mag;
pub use funcs::clone_faithful;
pub use funcs::mul_associative;
pub use funcs::one_is_identity;
pub use funcs::pow;
pub use funcs::pow_ok;
pub use funcs::pow_spec;
pub use integer::Euclidean;
pub use integer::Integer;
pub use number::Group;
pub use number::Number;
pub use number::One;
pub use number::Ring;
pub use number::Zero;
pub use sign::Sign;
pub use signed::Signed;
pub use signed::Unsigned;
