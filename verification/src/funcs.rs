//! Generic exponentiation by squaring over any `Ring`.

use vstd::prelude::*;
use vstd::pervasive::cloned;
use vstd::std_specs::ops::MulSpec;
use crate::number::One;
use crate::number::Ring;

verus! {

/// The mathematical power: `e`-fold left-multiplication by `x` applied to
/// the multiplicative identity.
pub open spec fn pow_spec<T: Ring>(x: T, e: nat) -> T
    decreases e,
{
    if e == 0 {
        T::one_spec()
    } else {
        x.mul_spec(pow_spec(x, (e - 1) as nat))
    }
}

/// All multiplications performed by `pow`'s squaring recursion are within
/// the type's domain (for machine integers: none of them overflows).
pub open spec fn pow_ok<T: Ring>(x: T, e: nat) -> bool
    decreases e,
{
    if e == 0 {
        true
    } else if e % 2 == 1 {
        let p = pow_spec(x, ((e - 1) / 2) as nat);
        &&& pow_ok(x, ((e - 1) / 2) as nat)
        &&& x.mul_req(p)
        &&& x.mul_spec(p).mul_req(p)
    } else {
        let p = pow_spec(x, (e / 2) as nat);
        &&& pow_ok(x, (e / 2) as nat)
        &&& p.mul_req(p)
    }
}

/// The type's multiplication is associative.
pub open spec fn mul_associative<T: Ring>() -> bool {
    forall|a: T, b: T, c: T| #![auto] a.mul_spec(b).mul_spec(c) == a.mul_spec(b.mul_spec(c))
}

/// The type's `one` is a two-sided identity of its multiplication.
pub open spec fn one_is_identity<T: Ring>() -> bool {
    &&& forall|x: T| #![auto] x.mul_spec(T::one_spec()) == x
    &&& forall|x: T| #![auto] T::one_spec().mul_spec(x) == x
}

/// Cloning a value of the type yields an equal value.
pub open spec fn clone_faithful<T: Ring + Clone>() -> bool {
    forall|a: T, b: T| #[trigger] cloned::<T>(a, b) ==> b == a
}

/// Raising to the zeroth power gives the multiplicative identity, for
/// every ring element, including the additive identity.
pub proof fn lemma_pow_zero<T: Ring>(x: T)
    ensures
        pow_spec(x, 0) == T::one_spec(),
{
}

/// Raising to the first power gives the element back, whenever `one` is a
/// multiplicative identity.
pub proof fn lemma_pow_one<T: Ring>(x: T)
    requires
        one_is_identity::<T>(),
    ensures
        pow_spec(x, 1) == x,
{
    assert(pow_spec(x, 0) == T::one_spec());
}

/// Powers add: `pow(x, m + n) == pow(x, m) * pow(x, n)`, in any ring whose
/// multiplication is associative with identity `one`.
pub proof fn lemma_pow_add<T: Ring>(x: T, m: nat, n: nat)
    requires
        mul_associative::<T>(),
        one_is_identity::<T>(),
    ensures
        pow_spec(x, m + n) == pow_spec(x, m).mul_spec(pow_spec(x, n)),
    decreases m,
{
    if m == 0 {
        assert(pow_spec(x, n) == T::one_spec().mul_spec(pow_spec(x, n)));
    } else {
        lemma_pow_add(x, (m - 1) as nat, n);
        assert(pow_spec(x, (m + n - 1) as nat) == pow_spec(x, (m - 1) as nat).mul_spec(
            pow_spec(x, n),
        ));
        assert(x.mul_spec(pow_spec(x, (m - 1) as nat).mul_spec(pow_spec(x, n))) == x.mul_spec(
            pow_spec(x, (m - 1) as nat),
        ).mul_spec(pow_spec(x, n)));
    }
}

/// The ring laws hold for `u8`: multiplication (which wraps around the
/// word size) is associative, `1` is its identity, and cloning preserves
/// the value.
pub proof fn lemma_ring_laws_u8()
    ensures
        mul_associative::<u8>(),
        one_is_identity::<u8>(),
        clone_faithful::<u8>(),
{
    assert forall|a: u8, b: u8, c: u8| #![auto]
        a.mul_spec(b).mul_spec(c) == a.mul_spec(b.mul_spec(c)) by {
        assert((((a * b) as u8) * c) as u8 == (a * (((b * c) as u8) as int)) as u8)
            by (bit_vector);
    }
    assert forall|a: u8, b: u8| #[trigger] cloned::<u8>(a, b) implies b == a by {
    }
}

/// The ring laws hold for `u16`: multiplication (which wraps around the
/// word size) is associative, `1` is its identity, and cloning preserves
/// the value.
pub proof fn lemma_ring_laws_u16()
    ensures
        mul_associative::<u16>(),
        one_is_identity::<u16>(),
        clone_faithful::<u16>(),
{
    assert forall|a: u16, b: u16, c: u16| #![auto]
        a.mul_spec(b).mul_spec(c) == a.mul_spec(b.mul_spec(c)) by {
        assert((((a * b) as u16) * c) as u16 == (a * (((b * c) as u16) as int)) as u16)
            by (bit_vector);
    }
    assert forall|a: u16, b: u16| #[trigger] cloned::<u16>(a, b) implies b == a by {
    }
}

/// The ring laws hold for `u32`: multiplication (which wraps around the
/// word size) is associative, `1` is its identity, and cloning preserves
/// the value.
pub proof fn lemma_ring_laws_u32()
    ensures
        mul_associative::<u32>(),
        one_is_identity::<u32>(),
        clone_faithful::<u32>(),
{
    assert forall|a: u32, b: u32, c: u32| #![auto]
        a.mul_spec(b).mul_spec(c) == a.mul_spec(b.mul_spec(c)) by {
        assert((((a * b) as u32) * c) as u32 == (a * (((b * c) as u32) as int)) as u32)
            by (bit_vector);
    }
    assert forall|a: u32, b: u32| #[trigger] cloned::<u32>(a, b) implies b == a by {
    }
}

/// The ring laws hold for `u64`: multiplication (which wraps around the
/// word size) is associative, `1` is its identity, and cloning preserves
/// the value.
pub proof fn lemma_ring_laws_u64()
    ensures
        mul_associative::<u64>(),
        one_is_identity::<u64>(),
        clone_faithful::<u64>(),
{
    assert forall|a: u64, b: u64, c: u64| #![auto]
        a.mul_spec(b).mul_spec(c) == a.mul_spec(b.mul_spec(c)) by {
        assert((((a * b) as u64) * c) as u64 == (a * (((b * c) as u64) as int)) as u64)
            by (bit_vector);
    }
    assert forall|a: u64, b: u64| #[trigger] cloned::<u64>(a, b) implies b == a by {
    }
}

/// The ring laws hold for `usize`: multiplication (which wraps around the
/// word size) is associative, `1` is its identity, and cloning preserves
/// the value.
pub proof fn lemma_ring_laws_usize()
    ensures
        mul_associative::<usize>(),
        one_is_identity::<usize>(),
        clone_faithful::<usize>(),
{
    assert forall|a: usize, b: usize, c: usize| #![auto]
        a.mul_spec(b).mul_spec(c) == a.mul_spec(b.mul_spec(c)) by {
        assert((((a * b) as usize) * c) as usize == (a * (((b * c) as usize) as int)) as usize)
            by (bit_vector);
    }
    assert forall|a: usize, b: usize| #[trigger] cloned::<usize>(a, b) implies b == a by {
    }
}

/// The ring laws hold for `i8`: multiplication (which wraps around the
/// word size) is associative, `1` is its identity, and cloning preserves
/// the value.
pub proof fn lemma_ring_laws_i8()
    ensures
        mul_associative::<i8>(),
        one_is_identity::<i8>(),
        clone_faithful::<i8>(),
{
    assert forall|a: i8, b: i8, c: i8| #![auto]
        a.mul_spec(b).mul_spec(c) == a.mul_spec(b.mul_spec(c)) by {
        assert((((a * b) as i8) * c) as i8 == (a * (((b * c) as i8) as int)) as i8)
            by (bit_vector);
    }
    assert forall|a: i8, b: i8| #[trigger] cloned::<i8>(a, b) implies b == a by {
    }
}

/// The ring laws hold for `i16`: multiplication (which wraps around the
/// word size) is associative, `1` is its identity, and cloning preserves
/// the value.
pub proof fn lemma_ring_laws_i16()
    ensures
        mul_associative::<i16>(),
        one_is_identity::<i16>(),
        clone_faithful::<i16>(),
{
    assert forall|a: i16, b: i16, c: i16| #![auto]
        a.mul_spec(b).mul_spec(c) == a.mul_spec(b.mul_spec(c)) by {
        assert((((a * b) as i16) * c) as i16 == (a * (((b * c) as i16) as int)) as i16)
            by (bit_vector);
    }
    assert forall|a: i16, b: i16| #[trigger] cloned::<i16>(a, b) implies b == a by {
    }
}

/// The ring laws hold for `i32`: multiplication (which wraps around the
/// word size) is associative, `1` is its identity, and cloning preserves
/// the value.
pub proof fn lemma_ring_laws_i32()
    ensures
        mul_associative::<i32>(),
        one_is_identity::<i32>(),
        clone_faithful::<i32>(),
{
    assert forall|a: i32, b: i32, c: i32| #![auto]
        a.mul_spec(b).mul_spec(c) == a.mul_spec(b.mul_spec(c)) by {
        assert((((a * b) as i32) * c) as i32 == (a * (((b * c) as i32) as int)) as i32)
            by (bit_vector);
    }
    assert forall|a: i32, b: i32| #[trigger] cloned::<i32>(a, b) implies b == a by {
    }
}

/// The ring laws hold for `i64`: multiplication (which wraps around the
/// word size) is associative, `1` is its identity, and cloning preserves
/// the value.
pub proof fn lemma_ring_laws_i64()
    ensures
        mul_associative::<i64>(),
        one_is_identity::<i64>(),
        clone_faithful::<i64>(),
{
    assert forall|a: i64, b: i64, c: i64| #![auto]
        a.mul_spec(b).mul_spec(c) == a.mul_spec(b.mul_spec(c)) by {
        assert((((a * b) as i64) * c) as i64 == (a * (((b * c) as i64) as int)) as i64)
            by (bit_vector);
    }
    assert forall|a: i64, b: i64| #[trigger] cloned::<i64>(a, b) implies b == a by {
    }
}

/// The ring laws hold for `isize`: multiplication (which wraps around the
/// word size) is associative, `1` is its identity, and cloning preserves
/// the value.
pub proof fn lemma_ring_laws_isize()
    ensures
        mul_associative::<isize>(),
        one_is_identity::<isize>(),
        clone_faithful::<isize>(),
{
    assert forall|a: isize, b: isize, c: isize| #![auto]
        a.mul_spec(b).mul_spec(c) == a.mul_spec(b.mul_spec(c)) by {
        assert((((a * b) as isize) * c) as isize == (a * (((b * c) as isize) as int)) as isize)
            by (bit_vector);
    }
    assert forall|a: isize, b: isize| #[trigger] cloned::<isize>(a, b) implies b == a by {
    }
}

/// Exponentiation by squaring: `x` raised to the power `e`, in
/// `O(log e)` multiplications. Multiplication is not assumed commutative,
/// so the odd case multiplies by `x` on the left exactly as specified.
pub fn pow<T: Ring + Clone>(x: T, e: usize) -> (r: T)
    requires
        T::obeys_mul_spec(),
        clone_faithful::<T>(),
        mul_associative::<T>(),
        one_is_identity::<T>(),
        pow_ok(x, e as nat),
    ensures
        r == pow_spec(x, e as nat),
    decreases e,
{
    if e == 0 {
        T::one()
    } else if e % 2 == 1 {
        let h = (e - 1) / 2;
        let xr = x.clone();
        proof {
            assert(cloned::<T>(x, xr));
        }
        let p = pow(xr, h);
        proof {
            lemma_pow_add(x, h as nat, h as nat);
            assert(pow_spec(x, (h + h) as nat) == pow_spec(x, h as nat).mul_spec(
                pow_spec(x, h as nat),
            ));
            assert(pow_spec(x, e as nat) == x.mul_spec(pow_spec(x, (h + h) as nat)));
            assert(x.mul_spec(pow_spec(x, h as nat).mul_spec(pow_spec(x, h as nat))) == x.mul_spec(
                pow_spec(x, h as nat),
            ).mul_spec(pow_spec(x, h as nat)));
        }
        let xm = x.clone();
        let pm = p.clone();
        proof {
            assert(cloned::<T>(x, xm));
            assert(cloned::<T>(p, pm));
        }
        xm.mul(pm).mul(p)
    } else {
        let h = e / 2;
        let p = pow(x, h);
        proof {
            lemma_pow_add(x, h as nat, h as nat);
        }
        let pm = p.clone();
        proof {
            assert(cloned::<T>(p, pm));
        }
        pm.mul(p)
    }
}

} // verus!
