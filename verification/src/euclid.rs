//! The mathematical model of divisibility and greatest common divisors,
//! and the binary GCD (Stein's algorithm) core routine shared by every
//! machine-integer width.

use vstd::prelude::*;
use vstd::arithmetic::div_mod::*;
use vstd::arithmetic::power2::*;

verus! {

/// `d` divides `n`: some integer multiple of `d` equals `n`.
pub open spec fn divides(d: int, n: int) -> bool {
    exists|q: int| n == #[trigger] (d * q)
}

/// The magnitude of an integer.
pub open spec fn mag(n: int) -> nat {
    if n < 0 {
        (-n) as nat
    } else {
        n as nat
    }
}

/// Greatest common divisor, defined by the Euclidean recursion.
pub open spec fn gcd_nat(a: nat, b: nat) -> nat
    decreases b,
{
    if b == 0 {
        a
    } else {
        gcd_nat(b, a % b)
    }
}

/// The greatest common divisor divides both of its arguments.
pub proof fn lemma_gcd_divides(a: nat, b: nat)
    ensures
        divides(gcd_nat(a, b) as int, a as int),
        divides(gcd_nat(a, b) as int, b as int),
    decreases b,
{
    if b == 0 {
        assert(a as int == a as int * 1);
        assert(0int == a as int * 0);
    } else {
        lemma_gcd_divides(b, a % b);
        let g = gcd_nat(b, a % b) as int;
        let q1 = choose|q: int| b as int == #[trigger] (g * q);
        let q2 = choose|q: int| (a % b) as int == #[trigger] (g * q);
        lemma_fundamental_div_mod(a as int, b as int);
        assert(a as int == b as int * (a as int / b as int) + (a % b) as int);
        let d = a as int / b as int;
        assert(a as int == (g * q1) * d + g * q2);
        assert((g * q1) * d + g * q2 == g * (q1 * d + q2)) by (nonlinear_arith);
        assert(a as int == g * (q1 * d + q2));
    }
}

/// Any common divisor of `a` and `b` divides their greatest common divisor.
pub proof fn lemma_gcd_greatest(a: nat, b: nat, d: int)
    requires
        divides(d, a as int),
        divides(d, b as int),
    ensures
        divides(d, gcd_nat(a, b) as int),
    decreases b,
{
    if b == 0 {
    } else {
        let qa = choose|q: int| a as int == #[trigger] (d * q);
        let qb = choose|q: int| b as int == #[trigger] (d * q);
        lemma_fundamental_div_mod(a as int, b as int);
        let k = a as int / b as int;
        assert((a % b) as int == a as int - b as int * k);
        assert(d * qa - (d * qb) * k == d * (qa - qb * k)) by (nonlinear_arith);
        assert((a % b) as int == d * (qa - qb * k));
        lemma_gcd_greatest(b, a % b, d);
    }
}

/// On natural numbers, mutual divisibility is equality.
pub proof fn lemma_divides_antisym(a: nat, b: nat)
    requires
        divides(a as int, b as int),
        divides(b as int, a as int),
    ensures
        a == b,
{
    if a == 0 {
        let q = choose|q: int| b as int == #[trigger] (a as int * q);
        assert(b as int == 0 * q) by (nonlinear_arith)
            requires
                b as int == a as int * q,
                a == 0,
        ;
    } else {
        let q1 = choose|q: int| b as int == #[trigger] (a as int * q);
        let q2 = choose|q: int| a as int == #[trigger] (b as int * q);
        assert(a as int == (a as int * q1) * q2);
        if b == 0 {
            assert(a as int == b as int * q2);
            assert(a as int == 0) by (nonlinear_arith)
                requires
                    a as int == b as int * q2,
                    b == 0,
            ;
        } else {
            assert(q1 >= 1 && q2 >= 1) by (nonlinear_arith)
                requires
                    b as int == a as int * q1,
                    a as int == b as int * q2,
                    a as int > 0,
                    b as int > 0,
            ;
            assert(a >= b && b >= a) by (nonlinear_arith)
                requires
                    b as int == a as int * q1,
                    a as int == b as int * q2,
                    q1 >= 1,
                    q2 >= 1,
                    a as int > 0,
                    b as int > 0,
            ;
        }
    }
}

/// A positive number bounds each of its divisors.
pub proof fn lemma_divides_le(d: int, n: nat)
    requires
        divides(d, n as int),
        n > 0,
        d >= 0,
    ensures
        0 < d <= n,
{
    let q = choose|q: int| n as int == #[trigger] (d * q);
    assert(0 < d && d <= d * q) by (nonlinear_arith)
        requires
            n as int == d * q,
            n as int > 0,
            d >= 0,
    ;
}

/// The greatest common divisor is symmetric in its arguments.
pub proof fn lemma_gcd_sym(a: nat, b: nat)
    ensures
        gcd_nat(a, b) == gcd_nat(b, a),
{
    lemma_gcd_divides(a, b);
    lemma_gcd_divides(b, a);
    lemma_gcd_greatest(b, a, gcd_nat(a, b) as int);
    lemma_gcd_greatest(a, b, gcd_nat(b, a) as int);
    lemma_divides_antisym(gcd_nat(a, b), gcd_nat(b, a));
}

/// A zero argument leaves the other argument as the greatest common divisor.
pub proof fn lemma_gcd_zero(a: nat)
    ensures
        gcd_nat(a, 0) == a,
        gcd_nat(0, a) == a,
{
    if a != 0 {
        lemma_small_mod(0, a);
        assert(gcd_nat(0, a) == gcd_nat(a, 0nat % a));
    }
}

/// Divisibility is exactly a zero remainder.
pub proof fn lemma_divides_iff_mod(d: int, n: int)
    requires
        d != 0,
    ensures
        divides(d, n) <==> n % d == 0,
{
    if n % d == 0 {
        lemma_fundamental_div_mod(n, d);
        assert(n == d * (n / d));
    }
    if divides(d, n) {
        let q = choose|q: int| n == #[trigger] (d * q);
        if d > 0 {
            lemma_mod_multiples_basic(q, d);
            assert(d * q == q * d) by (nonlinear_arith);
        } else {
            lemma_mod_multiples_basic(-q, -d);
            assert((-q) * (-d) == q * d && d * q == q * d) by (nonlinear_arith);
            lemma_mod_neg_d(n, d);
        }
    }
}

/// The remainder does not depend on the sign of the divisor.
proof fn lemma_mod_neg_d(n: int, d: int)
    requires
        d < 0,
    ensures
        n % d == n % (-d),
{
    assert(n % d == n % (-d)) by (nonlinear_arith);
}

/// Divisibility is insensitive to the sign of the dividend.
pub proof fn lemma_divides_neg(d: int, n: int)
    ensures
        divides(d, n) <==> divides(d, -n),
{
    if divides(d, n) {
        let q = choose|q: int| n == #[trigger] (d * q);
        assert(-n == d * (-q)) by (nonlinear_arith)
            requires
                n == d * q,
        ;
    }
    if divides(d, -n) {
        let q = choose|q: int| -n == #[trigger] (d * q);
        assert(n == d * (-q)) by (nonlinear_arith)
            requires
                -n == d * q,
        ;
    }
}

/// Dividing an exact multiple recovers the factor, for either sign of the
/// dividend, and bounds the quotient by the dividend.
pub proof fn lemma_exact_div(p: int, g: int, q: int)
    requires
        g > 0,
        p == g * q,
    ensures
        p / g == q,
        (-p) / g == -q,
        p >= 0 ==> 0 <= q <= p,
        p < 0 ==> p <= q < 0,
{
    assert(p == q * g + 0) by (nonlinear_arith)
        requires
            p == g * q,
    ;
    lemma_fundamental_div_mod_converse_div(p, g, q, 0);
    assert(-p == (-q) * g + 0) by (nonlinear_arith)
        requires
            p == g * q,
    ;
    lemma_fundamental_div_mod_converse_div(-p, g, -q, 0);
    assert(p >= 0 ==> 0 <= q <= p) by (nonlinear_arith)
        requires
            p == g * q,
            g >= 1,
    ;
    assert(p < 0 ==> p <= q < 0) by (nonlinear_arith)
        requires
            p == g * q,
            g >= 1,
    ;
}

/// The greatest common divisor of the magnitudes of two integers, not both
/// zero, is positive and divides their product.
pub proof fn lemma_gcd_divides_product(a: int, b: int)
    requires
        !(a == 0 && b == 0),
    ensures
        gcd_nat(mag(a), mag(b)) > 0,
        divides(gcd_nat(mag(a), mag(b)) as int, a * b),
{
    let g = gcd_nat(mag(a), mag(b));
    if a != 0 {
        lemma_gcd_le(mag(a), mag(b));
        lemma_gcd_divides(mag(a), mag(b));
        let qa = choose|q: int| mag(a) as int == #[trigger] (g as int * q);
        if a >= 0 {
            assert(a * b == g as int * (qa * b)) by (nonlinear_arith)
                requires
                    a == g as int * qa,
            ;
        } else {
            assert(a * b == g as int * (-qa * b)) by (nonlinear_arith)
                requires
                    -a == g as int * qa,
            ;
        }
    } else {
        lemma_gcd_zero(mag(b));
        assert(a * b == 0 * b);
        assert(0 * b == g as int * 0) by (nonlinear_arith);
    }
}

/// The greatest common divisor of a number with itself is that number.
pub proof fn lemma_gcd_self(a: nat)
    ensures
        gcd_nat(a, a) == a,
{
    if a != 0 {
        lemma_mod_self_0(a as int);
        assert(gcd_nat(a, a) == gcd_nat(a, 0));
    }
}

/// Subtracting the smaller operand from the larger leaves the greatest
/// common divisor unchanged.
pub proof fn lemma_gcd_sub(a: nat, b: nat)
    requires
        0 < b <= a,
    ensures
        gcd_nat((a - b) as nat, b) == gcd_nat(a, b),
{
    let g1 = gcd_nat(a, b);
    let g2 = gcd_nat((a - b) as nat, b);
    lemma_gcd_divides(a, b);
    lemma_gcd_divides((a - b) as nat, b);
    let qa = choose|q: int| a as int == #[trigger] (g1 as int * q);
    let qb = choose|q: int| b as int == #[trigger] (g1 as int * q);
    assert(a - b == g1 as int * (qa - qb)) by (nonlinear_arith)
        requires
            a as int == g1 as int * qa,
            b as int == g1 as int * qb,
    ;
    lemma_gcd_greatest((a - b) as nat, b, g1 as int);
    let qc = choose|q: int| (a - b) as int == #[trigger] (g2 as int * q);
    let qd = choose|q: int| b as int == #[trigger] (g2 as int * q);
    assert(a as int == g2 as int * (qc + qd)) by (nonlinear_arith)
        requires
            (a - b) as int == g2 as int * qc,
            b as int == g2 as int * qd,
    ;
    lemma_gcd_greatest(a, b, g2 as int);
    lemma_divides_antisym(g1, g2);
}

/// An odd number dividing an even number divides its half.
proof fn lemma_odd_divides_half(g: nat, a: nat)
    requires
        g % 2 == 1,
        a % 2 == 0,
        divides(g as int, a as int),
    ensures
        divides(g as int, (a / 2) as int),
{
    let q = choose|q: int| a as int == #[trigger] (g as int * q);
    assert(q >= 0) by (nonlinear_arith)
        requires
            a as int == g as int * q,
            a >= 0,
            g as int > 0,
    ;
    lemma_fundamental_div_mod(q, 2);
    let h = q / 2;
    if q % 2 == 1 {
        assert(a as int == 2 * (g as int * h) + g as int) by (nonlinear_arith)
            requires
                a as int == g as int * q,
                q == 2 * h + 1,
        ;
        lemma_mod_multiples_vanish(g as int * h, g as int, 2);
        assert(a as int % 2 == g as int % 2);
    }
    assert(q % 2 == 0);
    assert(a as int == 2 * (g as int * h)) by (nonlinear_arith)
        requires
            a as int == g as int * q,
            q == 2 * h,
    ;
    lemma_div_multiples_vanish(g as int * h, 2);
    assert((a / 2) as int == g as int * h);
}

/// An odd number is no multiple of two.
proof fn lemma_odd_factor_is_odd(g: nat, b: nat)
    requires
        b % 2 == 1,
        divides(g as int, b as int),
    ensures
        g % 2 == 1,
{
    let q = choose|q: int| b as int == #[trigger] (g as int * q);
    if g % 2 == 0 {
        let h = g / 2;
        lemma_fundamental_div_mod(g as int, 2);
        assert(b as int == 2 * (h as int * q)) by (nonlinear_arith)
            requires
                b as int == g as int * q,
                g as int == 2 * h,
        ;
        lemma_mod_multiples_basic(h as int * q, 2);
        assert((2 * (h as int * q)) % 2 == ((h as int * q) * 2) % 2);
    }
}

/// Halving an even operand beside an odd one leaves the greatest common
/// divisor unchanged.
pub proof fn lemma_gcd_even_odd(a: nat, b: nat)
    requires
        a % 2 == 0,
        b % 2 == 1,
    ensures
        gcd_nat((a / 2) as nat, b) == gcd_nat(a, b),
{
    let g1 = gcd_nat(a, b);
    let g2 = gcd_nat((a / 2) as nat, b);
    lemma_gcd_divides(a, b);
    lemma_gcd_divides(a / 2, b);
    lemma_odd_factor_is_odd(g1, b);
    lemma_odd_divides_half(g1, a);
    lemma_gcd_greatest(a / 2, b, g1 as int);
    let qc = choose|q: int| (a / 2) as int == #[trigger] (g2 as int * q);
    lemma_fundamental_div_mod(a as int, 2);
    assert(a as int == 2 * (a / 2) as int);
    assert(a as int == g2 as int * (2 * qc)) by (nonlinear_arith)
        requires
            (a / 2) as int == g2 as int * qc,
            a as int == 2 * (a / 2) as int,
    ;
    lemma_gcd_greatest(a, b, g2 as int);
    lemma_divides_antisym(g1, g2);
}

/// Doubling both operands doubles the greatest common divisor.
pub proof fn lemma_gcd_double(a: nat, b: nat)
    ensures
        gcd_nat(2 * a, 2 * b) == 2 * gcd_nat(a, b),
    decreases b,
{
    if b == 0 {
        assert(gcd_nat(2 * a, 0) == 2 * a);
    } else {
        let q = a as int / b as int;
        let r = a as int % b as int;
        lemma_fundamental_div_mod(a as int, b as int);
        assert(2 * a as int == q * (2 * b as int) + 2 * r) by (nonlinear_arith)
            requires
                a as int == b as int * q + r,
        ;
        lemma_fundamental_div_mod_converse_mod(2 * a as int, 2 * b as int, q, 2 * r);
        assert((2 * a) % (2 * b) == 2 * (a % b));
        lemma_gcd_double(b, a % b);
    }
}

/// Multiplying both operands by a power of two scales the greatest common
/// divisor by that power.
pub proof fn lemma_gcd_pow2(k: nat, a: nat, b: nat)
    ensures
        gcd_nat(a * pow2(k), b * pow2(k)) == pow2(k) * gcd_nat(a, b),
    decreases k,
{
    if k == 0 {
        assert(pow2(0) == 1) by {
            lemma2_to64();
        }
    } else {
        lemma_gcd_pow2((k - 1) as nat, a, b);
        lemma_pow2_unfold(k);
        assert(pow2(k) == 2 * pow2((k - 1) as nat));
        let p = pow2((k - 1) as nat);
        assert(a * (2 * p) == 2 * (a * p) && b * (2 * p) == 2 * (b * p)) by (nonlinear_arith);
        lemma_gcd_double(a * p, b * p);
        assert(2 * (p * gcd_nat(a, b)) == (2 * p) * gcd_nat(a, b)) by (nonlinear_arith);
    }
}

/// Powers of two in one operand vanish beside an odd operand.
pub proof fn lemma_gcd_odd_pow2(u: nat, v: nat, m: nat)
    requires
        u % 2 == 1,
    ensures
        gcd_nat(u, v * pow2(m)) == gcd_nat(u, v),
    decreases m,
{
    if m == 0 {
        assert(pow2(0) == 1) by {
            lemma2_to64();
        }
    } else {
        lemma_pow2_unfold(m);
        let p = pow2((m - 1) as nat);
        let w = v * p;
        assert(v * (2 * p) == 2 * w) by (nonlinear_arith)
            requires
                w == v * p,
        ;
        lemma_mod_multiples_basic(w as int, 2);
        assert((2 * w) % 2 == (w * 2) % 2);
        lemma_gcd_sym(u, 2 * w);
        lemma_gcd_even_odd(2 * w, u);
        lemma_div_multiples_vanish(w as int, 2);
        assert(((2 * w) / 2) as nat == w);
        lemma_gcd_sym(w, u);
        lemma_gcd_odd_pow2(u, v, (m - 1) as nat);
    }
}

/// Splitting both operands into an odd part and a power of two factors the
/// smaller power of two out of the greatest common divisor.
pub proof fn lemma_gcd_split(a1: nat, i: nat, b1: nat, j: nat)
    requires
        a1 % 2 == 1,
        b1 % 2 == 1,
    ensures
        gcd_nat(a1 * pow2(i), b1 * pow2(j)) == pow2(if i <= j {
            i
        } else {
            j
        }) * gcd_nat(a1, b1),
{
    if i <= j {
        lemma_pow2_adds(i, (j - i) as nat);
        assert(b1 * pow2(j) == (b1 * pow2((j - i) as nat)) * pow2(i)) by (nonlinear_arith)
            requires
                pow2(j) == pow2(i) * pow2((j - i) as nat),
        ;
        lemma_gcd_pow2(i, a1, b1 * pow2((j - i) as nat));
        lemma_gcd_odd_pow2(a1, b1, (j - i) as nat);
    } else {
        lemma_pow2_adds(j, (i - j) as nat);
        assert(a1 * pow2(i) == (a1 * pow2((i - j) as nat)) * pow2(j)) by (nonlinear_arith)
            requires
                pow2(i) == pow2(j) * pow2((i - j) as nat),
        ;
        lemma_gcd_pow2(j, a1 * pow2((i - j) as nat), b1);
        lemma_gcd_sym(a1 * pow2((i - j) as nat), b1);
        lemma_gcd_odd_pow2(b1, a1, (i - j) as nat);
        lemma_gcd_sym(b1, a1);
    }
}

/// A positive operand bounds the greatest common divisor.
pub proof fn lemma_gcd_le(a: nat, b: nat)
    requires
        a > 0,
    ensures
        0 < gcd_nat(a, b) <= a,
{
    lemma_gcd_divides(a, b);
    lemma_divides_le(gcd_nat(a, b) as int, a);
}

/// The greatest common divisor divides the product exactly, which makes
/// the least common multiple an exact quotient:
/// `gcd(a, b) * lcm(a, b) == a * b` for positive operands.
pub proof fn lemma_gcd_lcm_product(a: nat, b: nat)
    requires
        a > 0,
    ensures
        gcd_nat(a, b) * ((a * b) / gcd_nat(a, b)) == a * b,
        (a * b) / gcd_nat(a, b) <= a * b,
{
    let g = gcd_nat(a, b);
    lemma_gcd_le(a, b);
    lemma_gcd_divides(a, b);
    let qa = choose|q: int| a as int == #[trigger] (g as int * q);
    assert(a as int * b as int == g as int * (qa * b as int)) by (nonlinear_arith)
        requires
            a as int == g as int * qa,
    ;
    lemma_div_multiples_vanish(qa * b as int, g as int);
    assert((g as int * (qa * b as int)) / g as int == qa * b as int);
    assert(g as int * ((a * b) as int / g as int) == (a * b) as int) by (nonlinear_arith)
        requires
            (a * b) as int == g as int * (qa * b as int),
            (a * b) as int / g as int == qa * b as int,
    ;
    assert((a * b) / g <= a * b) by (nonlinear_arith)
        requires
            g as int * ((a * b) as int / g as int) == (a * b) as int,
            g > 0,
            a > 0,
            b >= 0,
    ;
}

/// Strips all factors of two from a positive value: returns the odd part
/// and the exponent of the removed power of two.
fn strip_twos(v: u64) -> (r: (u64, u64))
    requires
        v > 0,
    ensures
        r.0 % 2 == 1,
        r.0 > 0,
        r.1 <= 63,
        v as nat == r.0 as nat * pow2(r.1 as nat),
{
    let mut x = v;
    let mut c: u64 = 0;
    proof {
        lemma2_to64();
        assert(pow2(0) == 1);
    }
    while x % 2 == 0
        invariant
            x > 0,
            c <= 63,
            v as nat == x as nat * pow2(c as nat),
        decreases x,
    {
        proof {
            lemma_fundamental_div_mod(x as int, 2);
            assert(x as nat == 2 * (x as nat / 2));
            lemma_pow2_unfold((c + 1) as nat);
            assert(v as nat == (x as nat / 2) * pow2((c + 1) as nat)) by (nonlinear_arith)
                requires
                    v as nat == x as nat * pow2(c as nat),
                    x as nat == 2 * (x as nat / 2),
                    pow2((c + 1) as nat) == 2 * pow2(c as nat),
            ;
            if c + 1 >= 64 {
                lemma2_to64_rest();
                assert(pow2(64) == 0x10000000000000000);
                if c + 1 > 64 {
                    lemma_pow2_strictly_increases(64, (c + 1) as nat);
                }
                lemma_pow2_pos((c + 1) as nat);
                assert((x as nat / 2) * pow2((c + 1) as nat) >= pow2((c + 1) as nat))
                    by (nonlinear_arith)
                    requires
                        x as nat / 2 >= 1,
                        pow2((c + 1) as nat) > 0,
                ;
            }
        }
        x = x / 2;
        c = c + 1;
    }
    (x, c)
}

/// Greatest common divisor of two machine words by the binary method
/// (Stein's algorithm): strip common factors of two, reduce by
/// subtraction and halving while the operands differ, then restore the
/// common power of two.
pub fn gcd_u64(a: u64, b: u64) -> (r: u64)
    ensures
        r as nat == gcd_nat(a as nat, b as nat),
{
    if a == 0 {
        proof {
            lemma_gcd_zero(b as nat);
        }
        return b;
    }
    if b == 0 {
        return a;
    }
    let (a1, i) = strip_twos(a);
    let (b1, j) = strip_twos(b);
    let k = if i < j {
        i
    } else {
        j
    };
    proof {
        lemma_gcd_split(a1 as nat, i as nat, b1 as nat, j as nat);
        assert(gcd_nat(a as nat, b as nat) == pow2(k as nat) * gcd_nat(a1 as nat, b1 as nat));
    }
    let mut x = a1;
    let mut y = b1;
    while x != y
        invariant
            x % 2 == 1,
            y % 2 == 1,
            x > 0,
            y > 0,
            gcd_nat(a as nat, b as nat) == pow2(k as nat) * gcd_nat(x as nat, y as nat),
        decreases x + y,
    {
        if x < y {
            proof {
                lemma_gcd_sym(x as nat, y as nat);
            }
            let t = x;
            x = y;
            y = t;
        }
        proof {
            lemma_gcd_sub(x as nat, y as nat);
            lemma_fundamental_div_mod(x as int, 2);
            lemma_fundamental_div_mod(y as int, 2);
            assert((x - y) % 2 == 0) by {
                let d = x as int / 2 - y as int / 2;
                assert(x as int - y as int == 2 * d);
                lemma_mod_multiples_basic(d, 2);
                assert((2 * d) % 2 == (d * 2) % 2);
            }
        }
        x = x - y;
        let (x1, c) = strip_twos(x);
        proof {
            lemma_gcd_sym(x as nat, y as nat);
            lemma_gcd_odd_pow2(y as nat, x1 as nat, c as nat);
            lemma_gcd_sym(y as nat, x1 as nat);
            lemma_pow2_pos(c as nat);
            assert(x1 <= x) by (nonlinear_arith)
                requires
                    x as nat == x1 as nat * pow2(c as nat),
                    pow2(c as nat) >= 1,
                    x1 > 0,
            ;
        }
        x = x1;
    }
    proof {
        lemma_gcd_self(x as nat);
        lemma_gcd_le(a as nat, b as nat);
        assert(gcd_nat(x as nat, y as nat) == x as nat);
        assert(x as nat * pow2(k as nat) == pow2(k as nat) * x as nat) by (nonlinear_arith);
        assert(x as nat * pow2(k as nat) == gcd_nat(a as nat, b as nat));
    }
    let mut r = x;
    let mut s = k;
    while s > 0
        invariant
            r > 0,
            r as nat * pow2(s as nat) == gcd_nat(a as nat, b as nat),
            gcd_nat(a as nat, b as nat) <= u64::MAX,
        decreases s,
    {
        proof {
            lemma_pow2_unfold(s as nat);
            lemma_pow2_pos((s - 1) as nat);
            assert((2 * r as nat) * pow2((s - 1) as nat) == r as nat * pow2(s as nat))
                by (nonlinear_arith)
                requires
                    pow2(s as nat) == 2 * pow2((s - 1) as nat),
            ;
            assert(2 * r as nat <= (2 * r as nat) * pow2((s - 1) as nat)) by (nonlinear_arith)
                requires
                    r > 0,
                    pow2((s - 1) as nat) >= 1,
            ;
        }
        r = r * 2;
        s = s - 1;
    }
    proof {
        lemma2_to64();
        assert(pow2(s as nat) == 1);
        assert(r as nat * pow2(s as nat) == r as nat) by (nonlinear_arith)
            requires
                pow2(s as nat) == 1,
        ;
    }
    r
}

} // verus!

