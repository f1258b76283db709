//! Fractions at the specification level.
//!
//! `Frac` is the mathematical model of a `Scalar`: an unbounded numerator
//! over an unbounded denominator.  The operations here mirror ordinary
//! rational arithmetic without any reduction; `feq` identifies fractions
//! that name the same rational value.  The congruence lemmas let value-level
//! reasoning pass through sums, differences, products and quotients.

use vstd::prelude::*;
use vstd::math::abs;

verus! {

/// An unreduced fraction: the value `n / d`.  Meaningful when `d != 0`;
/// everything the library produces keeps `d >= 1`.
pub struct Frac {
    pub n: int,
    pub d: int,
}

/// The fraction of an integer.
pub open spec fn f_of_int(k: int) -> Frac {
    Frac { n: k, d: 1 }
}

pub open spec fn fadd(a: Frac, b: Frac) -> Frac {
    Frac { n: a.n * b.d + b.n * a.d, d: a.d * b.d }
}

pub open spec fn fsub(a: Frac, b: Frac) -> Frac {
    Frac { n: a.n * b.d - b.n * a.d, d: a.d * b.d }
}

pub open spec fn fmul(a: Frac, b: Frac) -> Frac {
    Frac { n: a.n * b.n, d: a.d * b.d }
}

/// Division leaves the sign with the denominator; reduction restores it.
pub open spec fn fdiv(a: Frac, b: Frac) -> Frac {
    Frac { n: a.n * b.d, d: a.d * b.n }
}

pub open spec fn fneg(a: Frac) -> Frac {
    Frac { n: -a.n, d: a.d }
}

/// Two fractions name the same rational value.
pub open spec fn feq(a: Frac, b: Frac) -> bool {
    a.n * b.d == b.n * a.d
}

/// `a < b` as rational values; meaningful for positive denominators.
pub open spec fn flt(a: Frac, b: Frac) -> bool
    recommends
        a.d >= 1,
        b.d >= 1,
{
    a.n * b.d < b.n * a.d
}

/// `|a - b| < 1/k`: the two values differ by less than the tolerance `1/k`.
/// Meaningful for positive denominators and `k >= 1`.
pub open spec fn fclose(a: Frac, b: Frac, k: int) -> bool
    recommends
        a.d >= 1,
        b.d >= 1,
        k >= 1,
{
    k * abs(a.n * b.d - b.n * a.d) < a.d * b.d
}

/// Value equality is transitive across a middle term with nonzero
/// denominator.
pub proof fn lemma_feq_trans(a: Frac, b: Frac, c: Frac)
    requires
        b.d != 0,
        feq(a, b),
        feq(b, c),
    ensures
        feq(a, c),
{
    assert(a.n * c.d == c.n * a.d) by (nonlinear_arith)
        requires
            a.n * b.d == b.n * a.d,
            b.n * c.d == c.n * b.d,
            b.d != 0,
    ;
}

/// One cross term of a sum of fractions, carried across value equality:
/// from `an/ad == a2n/a2d` (cross-multiplied), multiplying through by the
/// other pair's denominators keeps both sides equal.
proof fn lemma_cross(an: int, ad: int, a2n: int, a2d: int, bd: int, b2d: int)
    requires
        an * a2d == a2n * ad,
    ensures
        (an * bd) * (a2d * b2d) == (a2n * b2d) * (ad * bd),
{
    assert((an * bd) * (a2d * b2d) == (an * a2d) * (bd * b2d)) by (nonlinear_arith);
    assert((an * a2d) * (bd * b2d) == (a2n * ad) * (bd * b2d));
    assert((a2n * ad) * (bd * b2d) == (a2n * b2d) * (ad * bd)) by (nonlinear_arith);
}

/// Addition respects value equality.
pub proof fn lemma_fadd_cong(a: Frac, a2: Frac, b: Frac, b2: Frac)
    requires
        feq(a, a2),
        feq(b, b2),
    ensures
        feq(fadd(a, b), fadd(a2, b2)),
{
    let x1 = a.n * b.d;
    let x2 = b.n * a.d;
    let y1 = a2.n * b2.d;
    let y2 = b2.n * a2.d;
    let dd = a.d * b.d;
    let dd2 = a2.d * b2.d;
    lemma_cross(a.n, a.d, a2.n, a2.d, b.d, b2.d);
    lemma_cross(b.n, b.d, b2.n, b2.d, a.d, a2.d);
    assert(b2.d * a2.d == a2.d * b2.d) by (nonlinear_arith);
    assert(b.d * a.d == a.d * b.d) by (nonlinear_arith);
    assert((x1 + x2) * dd2 == (y1 + y2) * dd) by (nonlinear_arith)
        requires
            x1 * dd2 == y1 * dd,
            x2 * dd2 == y2 * dd,
    ;
}

/// Subtraction respects value equality.
pub proof fn lemma_fsub_cong(a: Frac, a2: Frac, b: Frac, b2: Frac)
    requires
        feq(a, a2),
        feq(b, b2),
    ensures
        feq(fsub(a, b), fsub(a2, b2)),
{
    let x1 = a.n * b.d;
    let x2 = b.n * a.d;
    let y1 = a2.n * b2.d;
    let y2 = b2.n * a2.d;
    let dd = a.d * b.d;
    let dd2 = a2.d * b2.d;
    lemma_cross(a.n, a.d, a2.n, a2.d, b.d, b2.d);
    lemma_cross(b.n, b.d, b2.n, b2.d, a.d, a2.d);
    assert(b2.d * a2.d == a2.d * b2.d) by (nonlinear_arith);
    assert(b.d * a.d == a.d * b.d) by (nonlinear_arith);
    assert((x1 - x2) * dd2 == (y1 - y2) * dd) by (nonlinear_arith)
        requires
            x1 * dd2 == y1 * dd,
            x2 * dd2 == y2 * dd,
    ;
}

/// Multiplication respects value equality.
pub proof fn lemma_fmul_cong(a: Frac, a2: Frac, b: Frac, b2: Frac)
    requires
        feq(a, a2),
        feq(b, b2),
    ensures
        feq(fmul(a, b), fmul(a2, b2)),
{
    assert((a.n * b.n) * (a2.d * b2.d) == (a2.n * b2.n) * (a.d * b.d)) by (nonlinear_arith)
        requires
            a.n * a2.d == a2.n * a.d,
            b.n * b2.d == b2.n * b.d,
    ;
}

/// Multiplying by a quotient of a common divisor is dividing the product:
/// `A * (A/L)` names the same value as `(A*A)/L`.
pub proof fn lemma_fmul_fdiv(a: Frac, l: Frac)
    ensures
        feq(fmul(a, fdiv(a, l)), fdiv(fmul(a, a), l)),
{
    assert((a.n * (a.n * l.d)) * ((a.d * a.d) * l.n) == ((a.n * a.n) * l.d) * (a.d * (a.d
        * l.n))) by (nonlinear_arith);
}

/// Quotients over a common divisor add: `X/L + Y/L` names the same value
/// as `(X + Y)/L`.
pub proof fn lemma_fdiv_add(x: Frac, y: Frac, l: Frac)
    ensures
        feq(fadd(fdiv(x, l), fdiv(y, l)), fdiv(fadd(x, y), l)),
{
    let a = x.n * y.d + y.n * x.d;
    assert(x.n * l.d * (y.d * l.n) + y.n * l.d * (x.d * l.n) == (a * l.d) * l.n)
        by (nonlinear_arith)
        requires
            a == x.n * y.d + y.n * x.d,
    ;
    assert(((a * l.d) * l.n) * ((x.d * y.d) * l.n) == (a * l.d) * ((x.d * l.n) * (y.d
        * l.n))) by (nonlinear_arith);
}

/// A value divided by an equal value names one.
pub proof fn lemma_fdiv_self(s: Frac, l: Frac)
    requires
        feq(l, s),
    ensures
        feq(fdiv(s, l), f_of_int(1)),
{
    assert((s.n * l.d) * 1 == 1 * (s.d * l.n)) by (nonlinear_arith)
        requires
            l.n * s.d == s.n * l.d,
    ;
}

/// Subtracting before or after an unrelated addition names the same
/// value: `(x - z) + y` equals `(x + y) - z`.
pub proof fn lemma_fadd_fsub_swap(x: Frac, y: Frac, z: Frac)
    ensures
        feq(fadd(fsub(x, z), y), fsub(fadd(x, y), z)),
{
    assert((x.n * z.d - z.n * x.d) * y.d == x.n * z.d * y.d - z.n * x.d * y.d)
        by (nonlinear_arith);
    assert(x.n * z.d * y.d == x.n * y.d * z.d) by (nonlinear_arith);
    assert((x.n * y.d + y.n * x.d) * z.d == x.n * y.d * z.d + y.n * x.d * z.d)
        by (nonlinear_arith);
    assert(y.n * (x.d * z.d) == y.n * x.d * z.d) by (nonlinear_arith);
    assert(z.n * (x.d * y.d) == z.n * x.d * y.d) by (nonlinear_arith);
    assert((x.d * z.d) * y.d == (x.d * y.d) * z.d) by (nonlinear_arith);
}

/// Rotating the order of three summands names the same value:
/// `(x + y) + z` equals `(z + x) + y`.
pub proof fn lemma_fadd_rotate(x: Frac, y: Frac, z: Frac)
    ensures
        feq(fadd(fadd(x, y), z), fadd(fadd(z, x), y)),
{
    assert((x.n * y.d + y.n * x.d) * z.d == x.n * y.d * z.d + y.n * x.d * z.d)
        by (nonlinear_arith);
    assert((z.n * x.d + x.n * z.d) * y.d == z.n * x.d * y.d + x.n * z.d * y.d)
        by (nonlinear_arith);
    assert(z.n * (x.d * y.d) == z.n * x.d * y.d) by (nonlinear_arith);
    assert(y.n * (z.d * x.d) == y.n * x.d * z.d) by (nonlinear_arith);
    assert(x.n * y.d * z.d == x.n * z.d * y.d) by (nonlinear_arith);
    assert((x.d * y.d) * z.d == (z.d * x.d) * y.d) by (nonlinear_arith);
}

/// `r` is the integer square root of `x`, rounded down.
pub open spec fn is_floor_sqrt(x: int, r: int) -> bool {
    0 <= r && r * r <= x && x < (r + 1) * (r + 1)
}

/// The integer square root, rounded down; meaningful for `x >= 0`.
pub closed spec fn floor_sqrt(x: int) -> int {
    choose|r: int| is_floor_sqrt(x, r)
}

proof fn lemma_floor_sqrt_exists(x: int)
    requires
        x >= 0,
    ensures
        exists|r: int| is_floor_sqrt(x, r),
    decreases x,
{
    if x == 0 {
        assert(is_floor_sqrt(0, 0));
    } else {
        let y = x - 1;
        lemma_floor_sqrt_exists(y);
        let r = choose|r: int| is_floor_sqrt(y, r);
        if x < (r + 1) * (r + 1) {
            assert(is_floor_sqrt(x, r));
        } else {
            assert(is_floor_sqrt(x, r + 1)) by (nonlinear_arith)
                requires
                    0 <= r,
                    r * r <= x - 1,
                    x - 1 < (r + 1) * (r + 1),
                    (r + 1) * (r + 1) <= x,
            ;
        }
    }
}

/// `floor_sqrt` meets its defining property on nonnegative inputs.
pub proof fn lemma_floor_sqrt(x: int)
    requires
        x >= 0,
    ensures
        is_floor_sqrt(x, floor_sqrt(x)),
{
    lemma_floor_sqrt_exists(x);
}

/// Only one integer is the floor square root of `x`.
pub proof fn lemma_floor_sqrt_unique(x: int, r: int)
    requires
        is_floor_sqrt(x, r),
    ensures
        r == floor_sqrt(x),
{
    let s = floor_sqrt(x);
    assert(is_floor_sqrt(x, s));
    assert(r == s) by (nonlinear_arith)
        requires
            0 <= r,
            0 <= s,
            r * r <= x,
            x < (r + 1) * (r + 1),
            s * s <= x,
            x < (s + 1) * (s + 1),
    ;
}

} // verus!
