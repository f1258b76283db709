//! Divisibility and the greatest common divisor.
//!
//! The facts proved here — the gcd divides its arguments, it is the largest
//! common divisor, it scales with a common factor, and dividing both
//! arguments by it leaves a coprime pair — are what `scalar` needs to keep
//! every `Scalar` in lowest terms and to show that a rational value has
//! exactly one canonical representation.

use vstd::prelude::*;
use vstd::arithmetic::div_mod::{
    lemma_fundamental_div_mod, lemma_fundamental_div_mod_converse, lemma_div_multiples_vanish,
};
use vstd::math::abs;

verus! {

/// `d` divides `n`: `n` is an integer multiple of `d`.
pub open spec fn divides(d: int, n: int) -> bool {
    exists|k: int| n == #[trigger] (k * d)
}

/// The greatest common divisor, by Euclid's recursion.  `gcd(a, 0) == a`.
pub open spec fn gcd(a: nat, b: nat) -> nat
    decreases b,
{
    if b == 0 {
        a
    } else {
        gcd(b, a % b)
    }
}

/// The gcd divides both of its arguments.
pub proof fn lemma_gcd_divides(a: nat, b: nat)
    ensures
        divides(gcd(a, b) as int, a as int),
        divides(gcd(a, b) as int, b as int),
    decreases b,
{
    if b == 0 {
        assert(a as int == 1 * (gcd(a, b) as int));
        assert(b as int == 0 * (gcd(a, b) as int));
    } else {
        lemma_gcd_divides(b, a % b);
        let g = gcd(b, a % b) as int;
        let k1 = choose|k: int| b as int == #[trigger] (k * g);
        let k2 = choose|k: int| (a % b) as int == #[trigger] (k * g);
        lemma_fundamental_div_mod(a as int, b as int);
        let q = a as int / b as int;
        assert(a as int == (k1 * q + k2) * g) by (nonlinear_arith)
            requires
                a as int == (b as int) * q + (a % b) as int,
                b as int == k1 * g,
                (a % b) as int == k2 * g,
        ;
        assert(gcd(a, b) == gcd(b, a % b));
    }
}

/// The gcd of two numbers that are not both zero is positive.
pub proof fn lemma_gcd_pos(a: nat, b: nat)
    ensures
        a + b > 0 ==> gcd(a, b) > 0,
    decreases b,
{
    if b == 0 {
    } else {
        lemma_gcd_pos(b, a % b);
    }
}

/// Any positive common divisor of `a` and `b` is at most `gcd(a, b)`.
pub proof fn lemma_gcd_maximal(a: nat, b: nat, c: int)
    requires
        c >= 1,
        divides(c, a as int),
        divides(c, b as int),
        a + b > 0,
    ensures
        c <= gcd(a, b),
    decreases b,
{
    if b == 0 {
        let k = choose|k: int| a as int == #[trigger] (k * c);
        assert(c <= a) by (nonlinear_arith)
            requires
                a as int == k * c,
                a > 0,
                c >= 1,
        ;
    } else {
        let k1 = choose|k: int| a as int == #[trigger] (k * c);
        let k2 = choose|k: int| b as int == #[trigger] (k * c);
        lemma_fundamental_div_mod(a as int, b as int);
        let q = a as int / b as int;
        assert((a % b) as int == (k1 - q * k2) * c) by (nonlinear_arith)
            requires
                a as int == (b as int) * q + (a % b) as int,
                a as int == k1 * c,
                b as int == k2 * c,
        ;
        lemma_gcd_maximal(b, a % b, c);
        assert(gcd(a, b) == gcd(b, a % b));
    }
}

/// A common factor scales the gcd: `gcd(a*k, b*k) == k * gcd(a, b)`.
pub proof fn lemma_gcd_scale(a: nat, b: nat, k: nat)
    requires
        k >= 1,
    ensures
        gcd(a * k, b * k) == k * gcd(a, b),
    decreases b,
{
    if b == 0 {
        assert(b * k == 0);
        assert(gcd(a * k, 0) == a * k);
        assert(a * k == k * a) by (nonlinear_arith);
    } else {
        assert(b * k >= 1) by (nonlinear_arith)
            requires
                b >= 1,
                k >= 1,
        ;
        lemma_fundamental_div_mod(a as int, b as int);
        let q = a as int / b as int;
        let r = a % b;
        assert(a * k == q * ((b * k) as int) + (r * k) as int) by (nonlinear_arith)
            requires
                a as int == (b as int) * q + r as int,
        ;
        assert(r * k < b * k) by (nonlinear_arith)
            requires
                r < b,
                k >= 1,
        ;
        lemma_fundamental_div_mod_converse(
            (a * k) as int,
            (b * k) as int,
            q,
            (r * k) as int,
        );
        assert((a * k) % (b * k) == r * k);
        assert(gcd(a * k, b * k) == gcd(b * k, r * k));
        lemma_gcd_scale(b, r, k);
    }
}

/// Dividing both arguments by their gcd leaves a coprime pair.
pub proof fn lemma_gcd_div_coprime(a: nat, b: nat)
    requires
        b >= 1,
    ensures
        gcd(a, b) >= 1,
        gcd(a / gcd(a, b), b / gcd(a, b)) == 1,
        (a / gcd(a, b)) * gcd(a, b) == a,
        (b / gcd(a, b)) * gcd(a, b) == b,
        b / gcd(a, b) >= 1,
    decreases b,
{
    let g = gcd(a, b);
    lemma_gcd_pos(a, b);
    lemma_gcd_divides(a, b);
    let k1 = choose|k: int| a as int == #[trigger] (k * (g as int));
    let k2 = choose|k: int| b as int == #[trigger] (k * (g as int));
    assert(k1 >= 0 && k2 >= 1) by (nonlinear_arith)
        requires
            a as int == k1 * (g as int),
            b as int == k2 * (g as int),
            a >= 0,
            b >= 1,
            g >= 1,
    ;
    assert((g as int) * k1 == a as int) by (nonlinear_arith)
        requires
            a as int == k1 * (g as int),
    ;
    assert((g as int) * k2 == b as int) by (nonlinear_arith)
        requires
            b as int == k2 * (g as int),
    ;
    lemma_div_multiples_vanish(k1, g as int);
    lemma_div_multiples_vanish(k2, g as int);
    assert(a / g == k1 as nat);
    assert(b / g == k2 as nat);
    assert((k1 as nat) * g == a) by (nonlinear_arith)
        requires
            a as int == k1 * (g as int),
            k1 >= 0,
    ;
    assert((k2 as nat) * g == b) by (nonlinear_arith)
        requires
            b as int == k2 * (g as int),
            k2 >= 1,
    ;
    lemma_gcd_scale(k1 as nat, k2 as nat, g);
    assert(g == g * gcd(k1 as nat, k2 as nat));
    lemma_gcd_pos(k1 as nat, k2 as nat);
    assert(gcd(k1 as nat, k2 as nat) == 1) by (nonlinear_arith)
        requires
            g as int == (g as int) * (gcd(k1 as nat, k2 as nat) as int),
            g >= 1,
            gcd(k1 as nat, k2 as nat) >= 1,
    ;
}

/// A rational value has exactly one representation in lowest terms with a
/// positive denominator.
pub proof fn lemma_canonical_unique(n1: int, d1: int, n2: int, d2: int)
    requires
        d1 >= 1,
        d2 >= 1,
        gcd(abs(n1) as nat, d1 as nat) == 1,
        gcd(abs(n2) as nat, d2 as nat) == 1,
        n1 * d2 == n2 * d1,
    ensures
        n1 == n2,
        d1 == d2,
{
    assert(abs(n1) * d2 == abs(n2) * d1) by (nonlinear_arith)
        requires
            n1 * d2 == n2 * d1,
            d1 >= 1,
            d2 >= 1,
            abs(n1) == if n1 >= 0 { n1 } else { -n1 },
            abs(n2) == if n2 >= 0 { n2 } else { -n2 },
    ;
    let a1 = abs(n1) as nat;
    let a2 = abs(n2) as nat;
    let e1 = d1 as nat;
    let e2 = d2 as nat;
    assert(a1 * e2 == a2 * e1);
    lemma_le_both(a1, e1, a2, e2);
    lemma_le_both(a2, e2, a1, e1);
    assert(d1 == d2);
    assert(n1 == n2) by (nonlinear_arith)
        requires
            n1 * d2 == n2 * d1,
            d1 == d2,
            d1 >= 1,
    ;
}

/// Helper for `lemma_canonical_unique`: with `a1/e1` in lowest terms and
/// `a1 * e2 == a2 * e1`, the denominator `e1` is at most `e2`.
proof fn lemma_le_both(a1: nat, e1: nat, a2: nat, e2: nat)
    requires
        e1 >= 1,
        e2 >= 1,
        gcd(a1, e1) == 1,
        a1 * e2 == a2 * e1,
    ensures
        e1 <= e2,
{
    assert(divides(e1 as int, (a1 * e2) as int)) by {
        assert((a1 * e2) as int == (a2 as int) * (e1 as int)) by (nonlinear_arith)
            requires
                a1 * e2 == a2 * e1,
        ;
    }
    assert(divides(e1 as int, (e1 * e2) as int)) by {
        assert((e1 * e2) as int == (e2 as int) * (e1 as int)) by (nonlinear_arith);
    }
    assert(e1 * e2 >= 1) by (nonlinear_arith)
        requires
            e1 >= 1,
            e2 >= 1,
    ;
    lemma_gcd_maximal(a1 * e2, e1 * e2, e1 as int);
    lemma_gcd_scale(a1, e1, e2);
    assert(e1 <= gcd(a1 * e2, e1 * e2));
    assert(gcd(a1 * e2, e1 * e2) == e2 * gcd(a1, e1));
    assert(e2 * gcd(a1, e1) == e2) by (nonlinear_arith)
        requires
            gcd(a1, e1) == 1,
    ;
}

/// `gcd(a, 1) == 1`: everything is coprime to 1.
pub proof fn lemma_gcd_one(a: nat)
    ensures
        gcd(a, 1) == 1,
{
    lemma_fundamental_div_mod(a as int, 1int);
    assert(a as int == 1 * (a as int) + 0);
    lemma_fundamental_div_mod_converse(a as int, 1int, a as int, 0int);
    assert(a % 1 == 0);
    assert(gcd(a, 1) == gcd(1, 0));
}

/// `gcd(0, d) == d` for positive `d`.
pub proof fn lemma_gcd_zero(d: nat)
    requires
        d >= 1,
    ensures
        gcd(0, d) == d,
{
    lemma_fundamental_div_mod(0int, d as int);
    lemma_fundamental_div_mod_converse(0int, d as int, 0int, 0int);
    assert(0nat % d == 0);
    assert(gcd(0, d) == gcd(d, 0nat % d));
}

/// Euclid's algorithm.
pub fn gcd_u128(a0: u128, b0: u128) -> (g: u128)
    ensures
        g == gcd(a0 as nat, b0 as nat),
{
    let mut a: u128 = a0;
    let mut b: u128 = b0;
    while b != 0
        invariant
            gcd(a as nat, b as nat) == gcd(a0 as nat, b0 as nat),
        decreases b,
    {
        let t: u128 = a % b;
        proof {
            assert(gcd(a as nat, b as nat) == gcd(b as nat, t as nat));
        }
        a = b;
        b = t;
    }
    a
}

} // verus!
