//! Exact rational scalars in canonical form.
//!
//! A `Scalar` is the executable number type of the algebra: a fraction of
//! 64-bit integers kept in lowest terms with a positive denominator, so two
//! scalars are equal as values exactly when they are equal as structs.
//! Every operation computes through 128-bit intermediates, reduces by the
//! gcd, and reports `GaError::Overflow` if the reduced result leaves the
//! 64-bit range; within range it is exact.
//!
//! Each operation's contract equates its result with a specification mirror
//! (`sadd`, `smul`, ...) over the `Frac` model, which pins the outcome
//! completely.

use vstd::prelude::*;
use vstd::math::abs;
use vstd::arithmetic::div_mod::lemma_div_multiples_vanish;
use crate::frac::{Frac, fadd, fsub, fmul, fdiv, fneg, feq, flt, fclose, is_floor_sqrt,
    floor_sqrt};
use crate::gcd::{gcd, gcd_u128, lemma_gcd_div_coprime, lemma_gcd_one, lemma_gcd_zero,
    lemma_canonical_unique};
use crate::GaError;

verus! {

/// Largest magnitude a canonical numerator or denominator may take.
/// The symmetric bound (it excludes `i64::MIN`) keeps negation total.
pub const MAX_PART: i64 = 0x7fff_ffff_ffff_ffff;

/// Denominator of the fixed comparison tolerance: values closer than
/// `1 / EPS_DEN` (that is, 1e-7) count as equal to `is_close` and as
/// negligible to the narrowing conversions.
pub const EPS_DEN: i64 = 10_000_000;

/// An exact rational number in canonical form: `num / den` in lowest terms
/// with `den >= 1`.
#[derive(Clone, Copy, Debug, PartialEq, Eq, Structural)]
pub struct Scalar {
    pub num: i64,
    pub den: i64,
}

impl View for Scalar {
    type V = Frac;

    open spec fn view(&self) -> Frac {
        Frac { n: self.num as int, d: self.den as int }
    }
}

/// `x` lies within the canonical 64-bit part range.
pub open spec fn fits(x: int) -> bool {
    -MAX_PART <= x <= MAX_PART
}

/// Reduction of a fraction to canonical form, or `Overflow` when the reduced
/// parts leave the 64-bit range.  A negative denominator moves its sign to
/// the numerator first.
pub open spec fn norm_frac(f: Frac) -> Result<Scalar, GaError>
    recommends
        f.d != 0,
{
    let n = if f.d < 0 {
        -f.n
    } else {
        f.n
    };
    let d = if f.d < 0 {
        -f.d
    } else {
        f.d
    };
    let g = gcd(abs(n) as nat, d as nat) as int;
    let n2 = n / g;
    let d2 = d / g;
    if fits(n2) && fits(d2) {
        Ok(Scalar { num: n2 as i64, den: d2 as i64 })
    } else {
        Err(GaError::Overflow)
    }
}

/// The canonical scalar of an integer; meaningful for `fits(k)`.
pub open spec fn s_of_int(k: int) -> Scalar {
    Scalar { num: k as i64, den: 1 }
}

/// The canonical zero.
pub open spec fn szero() -> Scalar {
    s_of_int(0)
}

/// The canonical one.
pub open spec fn sone() -> Scalar {
    s_of_int(1)
}

/// What `Scalar::new` returns.
pub open spec fn snew(num: int, den: int) -> Result<Scalar, GaError> {
    if den == 0 {
        Err(GaError::DivisionByZero)
    } else {
        norm_frac(Frac { n: num, d: den })
    }
}

/// What `Scalar::add` returns.
pub open spec fn sadd(a: Scalar, b: Scalar) -> Result<Scalar, GaError> {
    norm_frac(fadd(a.view(), b.view()))
}

/// What `Scalar::sub` returns.
pub open spec fn ssub(a: Scalar, b: Scalar) -> Result<Scalar, GaError> {
    norm_frac(fsub(a.view(), b.view()))
}

/// What `Scalar::mul` returns.
pub open spec fn smul(a: Scalar, b: Scalar) -> Result<Scalar, GaError> {
    norm_frac(fmul(a.view(), b.view()))
}

/// What `Scalar::div` returns.
pub open spec fn sdiv(a: Scalar, b: Scalar) -> Result<Scalar, GaError> {
    if b.view().n == 0 {
        Err(GaError::DivisionByZero)
    } else {
        norm_frac(fdiv(a.view(), b.view()))
    }
}

/// What `Scalar::neg` returns.
pub open spec fn sneg(a: Scalar) -> Scalar {
    Scalar { num: (-(a.num as int)) as i64, den: a.den }
}

impl Scalar {
    /// Canonical form: lowest terms, positive denominator, numerator clear
    /// of `i64::MIN` so that negation stays in range.
    pub open spec fn wf(self) -> bool {
        &&& 1 <= self.den
        &&& -MAX_PART <= self.num
        &&& gcd(abs(self.num as int) as nat, self.den as nat) == 1
    }
}

/// Bound on a product of two parts, used to justify the 128-bit
/// intermediates.
proof fn lemma_mul_bound(x: int, y: int, m: int) by (nonlinear_arith)
    requires
        -m <= x <= m,
        -m <= y <= m,
        0 <= m,
    ensures
        -(m * m) <= x * y <= m * m,
{
}

/// Reduce `n / d` (with `d >= 1`) to canonical form.
fn norm_i128(n: i128, d: i128) -> (r: Result<Scalar, GaError>)
    requires
        1 <= d,
        -0x7fff_ffff_ffff_ffff_ffff_ffff_ffff_ffff <= n,
    ensures
        r == norm_frac(Frac { n: n as int, d: d as int }),
        r matches Ok(s) ==> s.wf() && feq(s.view(), Frac { n: n as int, d: d as int }),
{
    let ghost nn: int = n as int;
    let ghost dd: int = d as int;
    let neg: bool = n < 0;
    let na: u128 = if neg {
        (-n) as u128
    } else {
        n as u128
    };
    let da: u128 = d as u128;
    proof {
        assert(na as int == abs(nn));
        assert(da as int == dd);
    }
    let g: u128 = gcd_u128(na, da);
    proof {
        lemma_gcd_div_coprime(na as nat, da as nat);
    }
    let nr: u128 = na / g;
    let dr: u128 = da / g;
    let ghost gg: int = g as int;
    let ghost n2: int = if neg {
        -(nr as int)
    } else {
        nr as int
    };
    let ghost d2: int = dr as int;
    proof {
        assert(nr as nat == (na as nat) / (g as nat));
        assert(dr as nat == (da as nat) / (g as nat));
        assert((nr as int) * gg == na as int);
        assert((dr as int) * gg == da as int);
        assert(nn == gg * n2) by (nonlinear_arith)
            requires
                (nr as int) * gg == na as int,
                nn == if neg {
                    -(na as int)
                } else {
                    na as int
                },
                n2 == if neg {
                    -(nr as int)
                } else {
                    nr as int
                },
        ;
        assert(dd == gg * d2) by (nonlinear_arith)
            requires
                (dr as int) * gg == da as int,
                dd == da as int,
                d2 == dr as int,
        ;
        lemma_div_multiples_vanish(n2, gg);
        lemma_div_multiples_vanish(d2, gg);
        assert(nn / gg == n2);
        assert(dd / gg == d2);
        assert(gg == gcd(abs(nn) as nat, dd as nat) as int);
    }
    if nr <= 0x7fff_ffff_ffff_ffff && dr <= 0x7fff_ffff_ffff_ffff {
        let num: i64 = if neg {
            -(nr as i64)
        } else {
            nr as i64
        };
        let den: i64 = dr as i64;
        proof {
            assert(num as int == n2);
            assert(den as int == d2);
            assert(fits(n2) && fits(d2));
            assert(abs(num as int) == nr as int);
            assert(gcd(abs(num as int) as nat, den as nat) == 1);
            assert(n2 * dd == nn * d2) by (nonlinear_arith)
                requires
                    nn == gg * n2,
                    dd == gg * d2,
            ;
        }
        Ok(Scalar { num, den })
    } else {
        proof {
            assert(!(fits(n2) && fits(d2)));
        }
        Err(GaError::Overflow)
    }
}

impl Scalar {
    /// The scalar `num / den`, reduced to canonical form.
    /// Fails with `DivisionByZero` when `den == 0`, and with `Overflow`
    /// when the reduced parts leave the 64-bit range.
    pub fn new(num: i64, den: i64) -> (r: Result<Scalar, GaError>)
        ensures
            r == snew(num as int, den as int),
            r matches Ok(s) ==> s.wf() && feq(s.view(), Frac { n: num as int, d: den as int }),
    {
        if den == 0 {
            return Err(GaError::DivisionByZero);
        }
        let mut n: i128 = num as i128;
        let mut d: i128 = den as i128;
        if d < 0 {
            n = -n;
            d = -d;
        }
        let r = norm_i128(n, d);
        proof {
            assert(norm_frac(Frac { n: n as int, d: d as int }) == norm_frac(
                Frac { n: num as int, d: den as int },
            ));
            match r {
                Ok(s) => {
                    assert(feq(s.view(), Frac { n: num as int, d: den as int }))
                        by (nonlinear_arith)
                        requires
                            feq(s.view(), Frac { n: n as int, d: d as int }),
                            n as int == if den < 0 {
                                -(num as int)
                            } else {
                                num as int
                            },
                            d as int == if den < 0 {
                                -(den as int)
                            } else {
                                den as int
                            },
                    ;
                },
                Err(_) => {},
            }
        }
        r
    }

    /// The scalar of an integer, exactly.
    pub fn from_int(i: i64) -> (s: Scalar)
        requires
            -MAX_PART <= i,
        ensures
            s == s_of_int(i as int),
            s.wf(),
            s.view() == (Frac { n: i as int, d: 1 }),
    {
        proof {
            lemma_gcd_one(abs(i as int) as nat);
        }
        Scalar { num: i, den: 1 }
    }

    /// The additive identity.
    pub fn zero() -> (s: Scalar)
        ensures
            s == szero(),
            s.wf(),
    {
        Scalar::from_int(0)
    }

    /// The multiplicative identity.
    pub fn one() -> (s: Scalar)
        ensures
            s == sone(),
            s.wf(),
    {
        Scalar::from_int(1)
    }

    /// Exact addition, reduced to canonical form.
    pub fn add(self, rhs: Scalar) -> (r: Result<Scalar, GaError>)
        requires
            self.wf(),
            rhs.wf(),
        ensures
            r == sadd(self, rhs),
            r matches Ok(s) ==> s.wf() && feq(s.view(), fadd(self.view(), rhs.view())),
    {
        proof {
            lemma_mul_bound(self.num as int, rhs.den as int, MAX_PART as int);
            lemma_mul_bound(rhs.num as int, self.den as int, MAX_PART as int);
            lemma_mul_bound(self.den as int, rhs.den as int, MAX_PART as int);
            assert(self.den as int * (rhs.den as int) >= 1) by (nonlinear_arith)
                requires
                    self.den >= 1,
                    rhs.den >= 1,
            ;
        }
        let n: i128 = (self.num as i128) * (rhs.den as i128) + (rhs.num as i128) * (self.den
            as i128);
        let d: i128 = (self.den as i128) * (rhs.den as i128);
        norm_i128(n, d)
    }

    /// Exact subtraction, reduced to canonical form.
    pub fn sub(self, rhs: Scalar) -> (r: Result<Scalar, GaError>)
        requires
            self.wf(),
            rhs.wf(),
        ensures
            r == ssub(self, rhs),
            r matches Ok(s) ==> s.wf() && feq(s.view(), fsub(self.view(), rhs.view())),
    {
        proof {
            lemma_mul_bound(self.num as int, rhs.den as int, MAX_PART as int);
            lemma_mul_bound(rhs.num as int, self.den as int, MAX_PART as int);
            lemma_mul_bound(self.den as int, rhs.den as int, MAX_PART as int);
            assert(self.den as int * (rhs.den as int) >= 1) by (nonlinear_arith)
                requires
                    self.den >= 1,
                    rhs.den >= 1,
            ;
        }
        let n: i128 = (self.num as i128) * (rhs.den as i128) - (rhs.num as i128) * (self.den
            as i128);
        let d: i128 = (self.den as i128) * (rhs.den as i128);
        norm_i128(n, d)
    }

    /// Exact multiplication, reduced to canonical form.
    pub fn mul(self, rhs: Scalar) -> (r: Result<Scalar, GaError>)
        requires
            self.wf(),
            rhs.wf(),
        ensures
            r == smul(self, rhs),
            r matches Ok(s) ==> s.wf() && feq(s.view(), fmul(self.view(), rhs.view())),
    {
        proof {
            lemma_mul_bound(self.num as int, rhs.num as int, MAX_PART as int);
            lemma_mul_bound(self.den as int, rhs.den as int, MAX_PART as int);
            assert(self.den as int * (rhs.den as int) >= 1) by (nonlinear_arith)
                requires
                    self.den >= 1,
                    rhs.den >= 1,
            ;
        }
        let n: i128 = (self.num as i128) * (rhs.num as i128);
        let d: i128 = (self.den as i128) * (rhs.den as i128);
        norm_i128(n, d)
    }

    /// Exact division, reduced to canonical form.
    /// Fails with `DivisionByZero` exactly when `rhs` is zero.
    pub fn div(self, rhs: Scalar) -> (r: Result<Scalar, GaError>)
        requires
            self.wf(),
            rhs.wf(),
        ensures
            r == sdiv(self, rhs),
            r matches Ok(s) ==> s.wf() && feq(s.view(), fdiv(self.view(), rhs.view())),
    {
        if rhs.num == 0 {
            return Err(GaError::DivisionByZero);
        }
        proof {
            lemma_mul_bound(self.num as int, rhs.den as int, MAX_PART as int);
            lemma_mul_bound(self.den as int, rhs.num as int, MAX_PART as int);
            assert(self.den as int * (rhs.num as int) != 0) by (nonlinear_arith)
                requires
                    self.den >= 1,
                    rhs.num != 0,
            ;
        }
        let mut n: i128 = (self.num as i128) * (rhs.den as i128);
        let mut d: i128 = (self.den as i128) * (rhs.num as i128);
        let ghost fd: Frac = fdiv(self.view(), rhs.view());
        if d < 0 {
            n = -n;
            d = -d;
        }
        let r = norm_i128(n, d);
        proof {
            assert(norm_frac(Frac { n: n as int, d: d as int }) == norm_frac(fd));
            match r {
                Ok(s) => {
                    assert(feq(s.view(), fd)) by (nonlinear_arith)
                        requires
                            feq(s.view(), Frac { n: n as int, d: d as int }),
                            n as int == if fd.d < 0 {
                                -fd.n
                            } else {
                                fd.n
                            },
                            d as int == if fd.d < 0 {
                                -fd.d
                            } else {
                                fd.d
                            },
                    ;
                },
                Err(_) => {},
            }
        }
        r
    }

    /// Exact negation; always canonical, never fails.
    pub fn neg(self) -> (r: Scalar)
        requires
            self.wf(),
        ensures
            r == sneg(self),
            r.wf(),
            feq(r.view(), fneg(self.view())),
    {
        proof {
            assert(abs(-(self.num as int)) == abs(self.num as int));
        }
        Scalar { num: -self.num, den: self.den }
    }

    /// Whether this scalar is exactly zero.
    pub fn is_zero(self) -> (r: bool)
        requires
            self.wf(),
        ensures
            r == (self.view().n == 0),
            r ==> self == szero(),
    {
        proof {
            if self.num == 0 {
                lemma_gcd_zero(self.den as nat);
            }
        }
        self.num == 0
    }

    /// Exact order comparison: `self < rhs` as rational values.
    pub fn lt(self, rhs: Scalar) -> (r: bool)
        requires
            self.wf(),
            rhs.wf(),
        ensures
            r == flt(self.view(), rhs.view()),
    {
        proof {
            lemma_mul_bound(self.num as int, rhs.den as int, MAX_PART as int);
            lemma_mul_bound(rhs.num as int, self.den as int, MAX_PART as int);
        }
        (self.num as i128) * (rhs.den as i128) < (rhs.num as i128) * (self.den as i128)
    }

    /// Whether `self` and `rhs` differ by less than the fixed tolerance
    /// `1 / EPS_DEN`; exact, despite the tolerance being a strict bound.
    pub fn is_close(self, rhs: Scalar) -> (r: bool)
        requires
            self.wf(),
            rhs.wf(),
        ensures
            r == fclose(self.view(), rhs.view(), EPS_DEN as int),
    {
        proof {
            lemma_mul_bound(self.num as int, rhs.den as int, MAX_PART as int);
            lemma_mul_bound(rhs.num as int, self.den as int, MAX_PART as int);
            lemma_mul_bound(self.den as int, rhs.den as int, MAX_PART as int);
        }
        let dn: i128 = (self.num as i128) * (rhs.den as i128) - (rhs.num as i128) * (self.den
            as i128);
        let dd: i128 = (self.den as i128) * (rhs.den as i128);
        let adn: i128 = if dn < 0 {
            -dn
        } else {
            dn
        };
        let lim: i128 = 0x7fff_ffff_ffff_ffff_ffff_ffff_ffff_ffff / (EPS_DEN as i128);
        proof {
            assert(adn == abs(dn as int));
        }
        if adn > lim {
            proof {
                let e: int = EPS_DEN as int;
                let l1: int = lim as int + 1;
                assert(e * l1 > (MAX_PART as int) * (MAX_PART as int));
                assert(e * (adn as int) >= e * l1) by (nonlinear_arith)
                    requires
                        adn as int >= l1,
                        e >= 0,
                ;
                assert(dd as int <= (MAX_PART as int) * (MAX_PART as int));
            }
            false
        } else {
            (EPS_DEN as i128) * adn < dd
        }
    }
}

/// Grid refinement of the rational square root: results are exact
/// multiples of `1 / (den * SQRT_PREC)`, so the approximation error is
/// below `1e-9`, finer than the comparison tolerance.
pub const SQRT_PREC: i64 = 1_000_000_000;

/// Largest `num * den` whose square-root scaling stays within 128 bits.
pub const SQRT_LIM: u128 = 340_282_366_920_938_463_463;

/// What `Scalar::sqrt` returns: the floor of the true square root on the
/// grid of multiples of `1 / (den * SQRT_PREC)`; meaningful for
/// nonnegative canonical scalars.
pub open spec fn ssqrt(q: Scalar) -> Result<Scalar, GaError> {
    let m = q.view().n * q.view().d;
    if m > SQRT_LIM {
        Err(GaError::Overflow)
    } else {
        norm_frac(
            Frac {
                n: floor_sqrt(m * (SQRT_PREC as int) * (SQRT_PREC as int)),
                d: q.view().d * (SQRT_PREC as int),
            },
        )
    }
}

/// Floor square root of a 128-bit integer, by bisection.
pub fn isqrt_u128(x: u128) -> (r: u128)
    ensures
        is_floor_sqrt(x as int, r as int),
{
    let mut lo: u128 = 0;
    let mut hi: u128 = 0x1_0000_0000_0000_0000;
    proof {
        assert((hi as int) * (hi as int) > x as int);
    }
    while lo + 1 < hi
        invariant
            lo < hi,
            hi <= 0x1_0000_0000_0000_0000,
            (lo as int) * (lo as int) <= x as int,
            (x as int) < (hi as int) * (hi as int),
        decreases hi - lo,
    {
        let mid: u128 = lo + (hi - lo) / 2;
        proof {
            assert(lo < mid && mid < hi);
            assert((mid as int) * (mid as int) <= 0xffff_ffff_ffff_ffff * 0xffff_ffff_ffff_ffff)
                by (nonlinear_arith)
                requires
                    0 <= mid as int <= 0xffff_ffff_ffff_ffff,
            ;
        }
        if mid * mid <= x {
            lo = mid;
        } else {
            hi = mid;
        }
    }
    lo
}

impl Scalar {
    /// The square root, rounded down to an exact multiple of
    /// `1 / (den * SQRT_PREC)` and then reduced; `Overflow` when the input
    /// is too large for the scaled radicand.
    pub fn sqrt(self) -> (r: Result<Scalar, GaError>)
        requires
            self.wf(),
            self.view().n >= 0,
        ensures
            r == ssqrt(self),
            r matches Ok(s) ==> s.wf(),
    {
        proof {
            lemma_mul_bound(self.num as int, self.den as int, MAX_PART as int);
        }
        let m: i128 = (self.num as i128) * (self.den as i128);
        if (m as u128) > SQRT_LIM {
            return Err(GaError::Overflow);
        }
        let scale: u128 = (SQRT_PREC as u128) * (SQRT_PREC as u128);
        proof {
            assert((m as int) * ((SQRT_PREC as int) * (SQRT_PREC as int)) <= (SQRT_LIM as int)
                * ((SQRT_PREC as int) * (SQRT_PREC as int))) by (nonlinear_arith)
                requires
                    0 <= m as int <= SQRT_LIM as int,
            ;
        }
        let s: u128 = (m as u128) * scale;
        let k: u128 = isqrt_u128(s);
        proof {
            assert((k as int) * (k as int) <= s as int);
            assert(k as int <= 0x1_0000_0000_0000_0000) by (nonlinear_arith)
                requires
                    (k as int) * (k as int) <= s as int,
                    s as int <= 0xffff_ffff_ffff_ffff_ffff_ffff_ffff_ffff,
                    k as int >= 0,
            ;
            crate::frac::lemma_floor_sqrt_unique(s as int, k as int);
            assert(1 <= (self.den as int) * (SQRT_PREC as int) <= (MAX_PART as int) * (
            SQRT_PREC as int)) by (nonlinear_arith)
                requires
                    1 <= self.den as int <= MAX_PART as int,
            ;
        }
        let dp: i128 = (self.den as i128) * (SQRT_PREC as i128);
        norm_i128(k as i128, dp)
    }
}

/// Reduction of a fraction with positive denominator: the outcome is
/// either a canonical scalar of the same value or an overflow report.
pub proof fn lemma_norm_props(f: Frac)
    requires
        f.d >= 1,
    ensures
        match norm_frac(f) {
            Ok(s) => s.wf() && feq(s.view(), f),
            Err(e) => e == GaError::Overflow,
        },
{
    let g = gcd(abs(f.n) as nat, f.d as nat) as int;
    lemma_gcd_div_coprime(abs(f.n) as nat, f.d as nat);
    let m: int = (abs(f.n) as int) / g;
    assert(m * g == abs(f.n));
    let dq: int = f.d / g;
    assert(f.d as nat / (g as nat) == dq);
    assert(dq * g == f.d);
    let nq: int = if f.n < 0 {
        -m
    } else {
        m
    };
    assert(f.n == g * nq) by (nonlinear_arith)
        requires
            m * g == abs(f.n),
            abs(f.n) == if f.n >= 0 {
                f.n
            } else {
                -f.n
            },
            nq == if f.n < 0 {
                -m
            } else {
                m
            },
    ;
    assert(f.d == g * dq) by (nonlinear_arith)
        requires
            dq * g == f.d,
    ;
    lemma_div_multiples_vanish(nq, g);
    lemma_div_multiples_vanish(dq, g);
    assert(f.n / g == nq);
    assert(f.d / g == dq);
    if fits(nq) && fits(dq) {
        let s = Scalar { num: nq as i64, den: dq as i64 };
        assert(abs(s.num as int) == m);
        assert(s.wf());
        assert(nq * f.d == f.n * dq) by (nonlinear_arith)
            requires
                f.n == g * nq,
                f.d == g * dq,
        ;
    }
}

/// The outcome of each canonical operation on well-formed scalars: a
/// well-formed scalar of the exact value, or an overflow report; division
/// adds its zero-divisor report.
pub proof fn lemma_sadd_props(a: Scalar, b: Scalar)
    requires
        a.wf(),
        b.wf(),
    ensures
        match sadd(a, b) {
            Ok(s) => s.wf() && feq(s.view(), fadd(a.view(), b.view())),
            Err(e) => e == GaError::Overflow,
        },
{
    assert(fadd(a.view(), b.view()).d >= 1) by (nonlinear_arith)
        requires
            a.view().d >= 1,
            b.view().d >= 1,
    ;
    lemma_norm_props(fadd(a.view(), b.view()));
}

/// As `lemma_sadd_props`, for subtraction.
pub proof fn lemma_ssub_props(a: Scalar, b: Scalar)
    requires
        a.wf(),
        b.wf(),
    ensures
        match ssub(a, b) {
            Ok(s) => s.wf() && feq(s.view(), fsub(a.view(), b.view())),
            Err(e) => e == GaError::Overflow,
        },
{
    assert(fsub(a.view(), b.view()).d >= 1) by (nonlinear_arith)
        requires
            a.view().d >= 1,
            b.view().d >= 1,
    ;
    lemma_norm_props(fsub(a.view(), b.view()));
}

/// As `lemma_sadd_props`, for multiplication.
pub proof fn lemma_smul_props(a: Scalar, b: Scalar)
    requires
        a.wf(),
        b.wf(),
    ensures
        match smul(a, b) {
            Ok(s) => s.wf() && feq(s.view(), fmul(a.view(), b.view())),
            Err(e) => e == GaError::Overflow,
        },
{
    assert(fmul(a.view(), b.view()).d >= 1) by (nonlinear_arith)
        requires
            a.view().d >= 1,
            b.view().d >= 1,
    ;
    lemma_norm_props(fmul(a.view(), b.view()));
}

/// As `lemma_sadd_props`, for division by a nonzero scalar.
pub proof fn lemma_sdiv_props(a: Scalar, b: Scalar)
    requires
        a.wf(),
        b.wf(),
        b.view().n != 0,
    ensures
        match sdiv(a, b) {
            Ok(s) => s.wf() && feq(s.view(), fdiv(a.view(), b.view())),
            Err(e) => e == GaError::Overflow,
        },
{
    let f = fdiv(a.view(), b.view());
    if b.view().n > 0 {
        assert(f.d >= 1) by (nonlinear_arith)
            requires
                a.view().d >= 1,
                b.view().n >= 1,
                f.d == a.view().d * b.view().n,
        ;
        lemma_norm_props(f);
    } else {
        let f2 = Frac { n: -f.n, d: -f.d };
        assert(f2.d >= 1) by (nonlinear_arith)
            requires
                a.view().d >= 1,
                b.view().n <= -1,
                f.d == a.view().d * b.view().n,
                f2.d == -f.d,
        ;
        lemma_norm_props(f2);
        assert(norm_frac(f) == norm_frac(f2));
        match norm_frac(f2) {
            Ok(s) => {
                assert(feq(s.view(), f)) by (nonlinear_arith)
                    requires
                        feq(s.view(), f2),
                        f2.n == -f.n,
                        f2.d == -f.d,
                ;
            },
            Err(_) => {},
        }
    }
}

/// Sequencing for the specification mirrors of composite operations: the
/// first error wins, otherwise the operands are added canonically.
pub open spec fn radd(x: Result<Scalar, GaError>, y: Result<Scalar, GaError>) -> Result<
    Scalar,
    GaError,
> {
    match x {
        Ok(a) => match y {
            Ok(b) => sadd(a, b),
            Err(e) => Err(e),
        },
        Err(e) => Err(e),
    }
}

/// As `radd`, for subtraction.
pub open spec fn rsub(x: Result<Scalar, GaError>, y: Result<Scalar, GaError>) -> Result<
    Scalar,
    GaError,
> {
    match x {
        Ok(a) => match y {
            Ok(b) => ssub(a, b),
            Err(e) => Err(e),
        },
        Err(e) => Err(e),
    }
}

/// As `radd`, for multiplication.
pub open spec fn rmul(x: Result<Scalar, GaError>, y: Result<Scalar, GaError>) -> Result<
    Scalar,
    GaError,
> {
    match x {
        Ok(a) => match y {
            Ok(b) => smul(a, b),
            Err(e) => Err(e),
        },
        Err(e) => Err(e),
    }
}

impl Default for Scalar {
    /// The canonical zero, matching the additive identity.
    fn default() -> (r: Scalar)
        ensures
            r == szero(),
            r.wf(),
    {
        Scalar::zero()
    }
}

/// Two well-formed scalars with the same rational value are identical:
/// canonical form is unique.
pub proof fn lemma_wf_unique(s1: Scalar, s2: Scalar)
    requires
        s1.wf(),
        s2.wf(),
        feq(s1.view(), s2.view()),
    ensures
        s1 == s2,
{
    lemma_canonical_unique(s1.view().n, s1.view().d, s2.view().n, s2.view().d);
}

/// `s_of_int(k)` is well formed for any in-range `k`.
pub proof fn lemma_s_of_int_wf(k: int)
    requires
        fits(k),
    ensures
        s_of_int(k).wf(),
        s_of_int(k).view() == (Frac { n: k, d: 1 }),
{
    lemma_gcd_one(abs(k) as nat);
}

/// A well-formed scalar whose value is the integer `k` is `s_of_int(k)`.
pub proof fn lemma_wf_int(s: Scalar, k: int)
    requires
        s.wf(),
        fits(k),
        feq(s.view(), Frac { n: k, d: 1 }),
    ensures
        s == s_of_int(k),
{
    lemma_s_of_int_wf(k);
    lemma_wf_unique(s, s_of_int(k));
}

/// Reducing a canonical scalar's own fraction gives the scalar back.
pub proof fn lemma_norm_canonical(s: Scalar)
    requires
        s.wf(),
    ensures
        norm_frac(s.view()) == Ok::<Scalar, GaError>(s),
{
    let g = gcd(abs(s.view().n) as nat, s.view().d as nat) as int;
    assert(g == 1);
    lemma_div_multiples_vanish(s.view().n, 1);
    lemma_div_multiples_vanish(s.view().d, 1);
    assert(1 * s.view().n == s.view().n);
    assert(1 * s.view().d == s.view().d);
}

/// Negation preserves well-formedness and negates the value.
pub proof fn lemma_sneg_wf(a: Scalar)
    requires
        a.wf(),
    ensures
        sneg(a).wf(),
        sneg(a).view() == fneg(a.view()),
        sneg(sneg(a)) == a,
{
    assert(abs(-(a.num as int)) == abs(a.num as int));
}

/// Adding or subtracting the canonical zero returns the operand; the
/// mirrored difference is the negation.
pub proof fn lemma_szero_unit(a: Scalar)
    requires
        a.wf(),
    ensures
        sadd(a, szero()) == Ok::<Scalar, GaError>(a),
        sadd(szero(), a) == Ok::<Scalar, GaError>(a),
        ssub(a, szero()) == Ok::<Scalar, GaError>(a),
        ssub(szero(), a) == Ok::<Scalar, GaError>(sneg(a)),
        smul(a, szero()) == Ok::<Scalar, GaError>(szero()),
        smul(szero(), a) == Ok::<Scalar, GaError>(szero()),
{
    lemma_s_of_int_wf(0);
    let z = szero();
    assert(fadd(a.view(), z.view()) == a.view());
    assert(fadd(z.view(), a.view()) == a.view());
    assert(fsub(a.view(), z.view()) == a.view());
    lemma_sneg_wf(a);
    assert(fsub(z.view(), a.view()) == sneg(a).view());
    lemma_norm_canonical(a);
    lemma_norm_canonical(sneg(a));
    assert(fmul(a.view(), z.view()) == (Frac { n: 0, d: a.view().d }));
    assert(fmul(z.view(), a.view()) == (Frac { n: 0, d: a.view().d }));
    lemma_gcd_zero(a.view().d as nat);
    lemma_div_multiples_vanish(0, a.view().d);
    lemma_div_multiples_vanish(1, a.view().d);
    assert(a.view().d * 0 == 0);
    assert(a.view().d * 1 == a.view().d);
    assert(norm_frac(Frac { n: 0, d: a.view().d }) == Ok::<Scalar, GaError>(szero()));
}

/// Multiplication of scalars is commutative, mirror included.
pub proof fn lemma_smul_comm(a: Scalar, b: Scalar)
    ensures
        smul(a, b) == smul(b, a),
{
    assert(a.view().n * b.view().n == b.view().n * a.view().n) by (nonlinear_arith);
    assert(a.view().d * b.view().d == b.view().d * a.view().d) by (nonlinear_arith);
    assert(fmul(a.view(), b.view()) == fmul(b.view(), a.view()));
}

/// Reduction commutes with negation of the numerator.
pub proof fn lemma_norm_neg(f: Frac)
    requires
        f.d >= 1,
    ensures
        norm_frac(Frac { n: -f.n, d: f.d }) == (match norm_frac(f) {
            Ok(s) => Ok::<Scalar, GaError>(sneg(s)),
            Err(e) => Err::<Scalar, GaError>(e),
        }),
{
    let g = gcd(abs(f.n) as nat, f.d as nat) as int;
    lemma_gcd_div_coprime(abs(f.n) as nat, f.d as nat);
    assert(abs(-f.n) == abs(f.n));
    let m: int = (abs(f.n) as int) / g;
    assert(m * g == abs(f.n));
    assert(f.n == g * (if f.n < 0 { -m } else { m })) by (nonlinear_arith)
        requires
            m * g == abs(f.n),
            abs(f.n) == if f.n >= 0 { f.n } else { -f.n },
    ;
    assert(-f.n == g * (if f.n < 0 { m } else { -m })) by (nonlinear_arith)
        requires
            m * g == abs(f.n),
            abs(f.n) == if f.n >= 0 { f.n } else { -f.n },
    ;
    lemma_div_multiples_vanish(if f.n < 0 { -m } else { m }, g);
    lemma_div_multiples_vanish(if f.n < 0 { m } else { -m }, g);
    assert(f.n / g == if f.n < 0 { -m } else { m });
    assert((-f.n) / g == -(f.n / g));
    assert(fits(-(f.n / g)) == fits(f.n / g));
}

/// Reducing a zero numerator over any positive denominator gives the
/// canonical zero.
pub proof fn lemma_norm_zero(dd: int)
    requires
        dd >= 1,
    ensures
        norm_frac(Frac { n: 0, d: dd }) == Ok::<Scalar, GaError>(szero()),
{
    lemma_gcd_zero(dd as nat);
    lemma_div_multiples_vanish(0, dd);
    lemma_div_multiples_vanish(1, dd);
    assert(dd * 0 == 0);
    assert(dd * 1 == dd);
}

/// A canonical scalar minus itself is the canonical zero.
pub proof fn lemma_ssub_self(a: Scalar)
    requires
        a.wf(),
    ensures
        ssub(a, a) == Ok::<Scalar, GaError>(szero()),
{
    let f = fsub(a.view(), a.view());
    assert(f.n == 0);
    assert(f.d >= 1) by (nonlinear_arith)
        requires
            a.view().d >= 1,
            f.d == a.view().d * a.view().d,
    ;
    lemma_norm_zero(f.d);
}

/// The canonical zero is a unit for the sequenced mirrors, whatever the
/// other operand's outcome.
pub proof fn lemma_rzero_unit(x: Result<Scalar, GaError>)
    requires
        x matches Ok(s) ==> s.wf(),
    ensures
        radd(Ok(szero()), x) == x,
        radd(x, Ok(szero())) == x,
        rsub(x, Ok(szero())) == x,
        rsub(Ok(szero()), x) == (match x {
            Ok(s) => Ok::<Scalar, GaError>(sneg(s)),
            Err(e) => Err::<Scalar, GaError>(e),
        }),
        rmul(Ok(szero()), x) == (match x {
            Ok(_) => Ok::<Scalar, GaError>(szero()),
            Err(e) => Err::<Scalar, GaError>(e),
        }),
        rmul(x, Ok(szero())) == (match x {
            Ok(_) => Ok::<Scalar, GaError>(szero()),
            Err(e) => Err::<Scalar, GaError>(e),
        }),
    {
    lemma_s_of_int_wf(0);
    match x {
        Ok(s) => {
            lemma_szero_unit(s);
        },
        Err(_) => {},
    }
}

/// Negating one factor negates the canonical product, failure included.
pub proof fn lemma_smul_neg(a: Scalar, b: Scalar)
    requires
        a.wf(),
        b.wf(),
    ensures
        smul(sneg(a), b) == (match smul(a, b) {
            Ok(s) => Ok::<Scalar, GaError>(sneg(s)),
            Err(e) => Err::<Scalar, GaError>(e),
        }),
{
    lemma_sneg_wf(a);
    let f = fmul(a.view(), b.view());
    assert(sneg(a).view().n * b.view().n == -(a.view().n * b.view().n)) by (nonlinear_arith)
        requires
            sneg(a).view().n == -a.view().n,
    ;
    assert(fmul(sneg(a).view(), b.view()) == (Frac { n: -f.n, d: f.d }));
    assert(f.d >= 1) by (nonlinear_arith)
        requires
            a.view().d >= 1,
            b.view().d >= 1,
            f.d == a.view().d * b.view().d,
    ;
    lemma_norm_neg(f);
}

/// A negated first summand turns the canonical sum into the mirrored
/// difference.
pub proof fn lemma_sadd_neg(a: Scalar, b: Scalar)
    requires
        a.wf(),
        b.wf(),
    ensures
        sadd(sneg(a), b) == ssub(b, a),
{
    lemma_sneg_wf(a);
    let f1 = fadd(sneg(a).view(), b.view());
    let f2 = fsub(b.view(), a.view());
    assert(sneg(a).view().n * b.view().d == -(a.view().n * b.view().d)) by (nonlinear_arith)
        requires
            sneg(a).view().n == -a.view().n,
    ;
    assert(sneg(a).view().d * b.view().d == b.view().d * a.view().d) by (nonlinear_arith)
        requires
            sneg(a).view().d == a.view().d,
    ;
    assert(f1 == f2);
}

/// Subtracting in the opposite order negates the result, failure included.
pub proof fn lemma_ssub_antisym(a: Scalar, b: Scalar)
    requires
        a.wf(),
        b.wf(),
    ensures
        ssub(b, a) == (match ssub(a, b) {
            Ok(s) => Ok::<Scalar, GaError>(sneg(s)),
            Err(e) => Err::<Scalar, GaError>(e),
        }),
{
    let f = fsub(a.view(), b.view());
    let h = fsub(b.view(), a.view());
    assert(b.view().d * a.view().d == a.view().d * b.view().d) by (nonlinear_arith);
    assert(h == (Frac { n: -f.n, d: f.d }));
    assert(f.d >= 1) by (nonlinear_arith)
        requires
            a.view().d >= 1,
            b.view().d >= 1,
            f.d == a.view().d * b.view().d,
    ;
    lemma_norm_neg(f);
}

} // verus!
