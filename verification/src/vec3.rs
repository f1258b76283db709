//! Vectors over the Euclidean basis `e1, e2, e3`, with the dot product, the
//! wedge product, the vector-vector geometric product, inverses and
//! reflection.

use vstd::prelude::*;
use crate::scalar::{Scalar, szero, sneg, smul, sdiv, s_of_int, radd, rsub, rmul, EPS_DEN};
use crate::frac::{Frac, fclose, feq};
use crate::bivec3::BiVec3;
use crate::rotor::{Rotor3, DualRotor3};
use crate::multivec::MultiVec3;
use crate::GaError;

verus! {

/// A point or direction in 3-dimensional Euclidean space.
#[derive(Clone, Copy, Debug, PartialEq, Eq, Structural)]
pub struct Vec3 {
    pub e1: Scalar,
    pub e2: Scalar,
    pub e3: Scalar,
}

/// The zero vector.
pub open spec fn spec_vzero() -> Vec3 {
    Vec3 { e1: szero(), e2: szero(), e3: szero() }
}

/// Componentwise negation.
pub open spec fn spec_vneg(v: Vec3) -> Vec3 {
    Vec3 { e1: sneg(v.e1), e2: sneg(v.e2), e3: sneg(v.e3) }
}

/// Whether every component is exactly zero.
pub open spec fn spec_is_vzero(v: Vec3) -> bool {
    v.e1.view().n == 0 && v.e2.view().n == 0 && v.e3.view().n == 0
}

/// The Euclidean inner product `a.e1*b.e1 + a.e2*b.e2 + a.e3*b.e3`.
pub open spec fn spec_dot(a: Vec3, b: Vec3) -> Result<Scalar, GaError> {
    radd(radd(smul(a.e1, b.e1), smul(a.e2, b.e2)), smul(a.e3, b.e3))
}

/// The squared length: the dot product of a vector with itself.
pub open spec fn spec_length_squared(v: Vec3) -> Result<Scalar, GaError> {
    spec_dot(v, v)
}

/// The `e12` component of the wedge product.
pub open spec fn wedge_e12(a: Vec3, b: Vec3) -> Result<Scalar, GaError> {
    rsub(smul(a.e1, b.e2), smul(a.e2, b.e1))
}

/// The `e23` component of the wedge product.
pub open spec fn wedge_e23(a: Vec3, b: Vec3) -> Result<Scalar, GaError> {
    rsub(smul(a.e2, b.e3), smul(a.e3, b.e2))
}

/// The `e31` component of the wedge product.
pub open spec fn wedge_e31(a: Vec3, b: Vec3) -> Result<Scalar, GaError> {
    rsub(smul(a.e3, b.e1), smul(a.e1, b.e3))
}

/// The antisymmetric outer product of two vectors: an oriented plane
/// element.
pub open spec fn spec_wedge(a: Vec3, b: Vec3) -> Result<BiVec3, GaError> {
    match wedge_e12(a, b) {
        Ok(x) => match wedge_e23(a, b) {
            Ok(y) => match wedge_e31(a, b) {
                Ok(z) => Ok(BiVec3 { e12: x, e23: y, e31: z }),
                Err(e) => Err(e),
            },
            Err(e) => Err(e),
        },
        Err(e) => Err(e),
    }
}

/// Componentwise sum.
pub open spec fn spec_vadd(a: Vec3, b: Vec3) -> Result<Vec3, GaError> {
    match crate::scalar::sadd(a.e1, b.e1) {
        Ok(x) => match crate::scalar::sadd(a.e2, b.e2) {
            Ok(y) => match crate::scalar::sadd(a.e3, b.e3) {
                Ok(z) => Ok(Vec3 { e1: x, e2: y, e3: z }),
                Err(e) => Err(e),
            },
            Err(e) => Err(e),
        },
        Err(e) => Err(e),
    }
}

/// Componentwise difference.
pub open spec fn spec_vsub(a: Vec3, b: Vec3) -> Result<Vec3, GaError> {
    match crate::scalar::ssub(a.e1, b.e1) {
        Ok(x) => match crate::scalar::ssub(a.e2, b.e2) {
            Ok(y) => match crate::scalar::ssub(a.e3, b.e3) {
                Ok(z) => Ok(Vec3 { e1: x, e2: y, e3: z }),
                Err(e) => Err(e),
            },
            Err(e) => Err(e),
        },
        Err(e) => Err(e),
    }
}

/// Componentwise multiplication by a scalar.
pub open spec fn spec_scale(v: Vec3, s: Scalar) -> Result<Vec3, GaError> {
    match smul(v.e1, s) {
        Ok(x) => match smul(v.e2, s) {
            Ok(y) => match smul(v.e3, s) {
                Ok(z) => Ok(Vec3 { e1: x, e2: y, e3: z }),
                Err(e) => Err(e),
            },
            Err(e) => Err(e),
        },
        Err(e) => Err(e),
    }
}

/// Componentwise division by a scalar; `DivisionByZero` when it is zero.
pub open spec fn spec_vdiv(v: Vec3, s: Scalar) -> Result<Vec3, GaError> {
    match sdiv(v.e1, s) {
        Ok(x) => match sdiv(v.e2, s) {
            Ok(y) => match sdiv(v.e3, s) {
                Ok(z) => Ok(Vec3 { e1: x, e2: y, e3: z }),
                Err(e) => Err(e),
            },
            Err(e) => Err(e),
        },
        Err(e) => Err(e),
    }
}

/// The Euclidean length: the grid square root of the squared length.
pub open spec fn spec_length(v: Vec3) -> Result<Scalar, GaError> {
    match spec_length_squared(v) {
        Ok(l) => crate::scalar::ssqrt(l),
        Err(e) => Err(e),
    }
}

/// The unit vector along `v`: `v` divided by its computed length.
pub open spec fn spec_normalized(v: Vec3) -> Result<Vec3, GaError> {
    match spec_length(v) {
        Ok(l) => spec_vdiv(v, l),
        Err(e) => Err(e),
    }
}

/// Denominator of the squared-distance tolerance: vectors whose squared
/// distance is below `1 / DIST_EPS_DEN` (that is, 1e-10) count as equal to
/// the distance comparator.
pub const DIST_EPS_DEN: i64 = 10_000_000_000;

/// The squared distance between two vectors.
pub open spec fn spec_distance_squared(a: Vec3, b: Vec3) -> Result<Scalar, GaError> {
    match spec_vsub(a, b) {
        Ok(d) => spec_length_squared(d),
        Err(e) => Err(e),
    }
}

/// The geometric product of two vectors: its scalar part is the dot
/// product and its bivector part the wedge, so it lands in the even
/// subalgebra.
pub open spec fn spec_vv_mul(a: Vec3, b: Vec3) -> Result<Rotor3, GaError> {
    match spec_dot(a, b) {
        Ok(s) => match spec_wedge(a, b) {
            Ok(w) => Ok(Rotor3 { e: s, e12: w.e12, e23: w.e23, e31: w.e31 }),
            Err(e) => Err(e),
        },
        Err(e) => Err(e),
    }
}

/// The inverse `v / (v . v)`; `DivisionByZero` on the zero vector.
pub open spec fn spec_inverse(v: Vec3) -> Result<Vec3, GaError> {
    if spec_is_vzero(v) {
        Err(GaError::DivisionByZero)
    } else {
        match spec_length_squared(v) {
            Ok(l) => spec_vdiv(v, l),
            Err(e) => Err(e),
        }
    }
}

/// The scalar two, used by the closed-form reflection.
pub open spec fn stwo() -> Scalar {
    s_of_int(2)
}

/// First component of the closed-form reflection numerator.
pub open spec fn spec_refl_p1(v: Vec3, a: Vec3) -> Result<Scalar, GaError> {
    radd(
        radd(
            rsub(
                rsub(rmul(smul(a.e1, a.e1), Ok(v.e1)), rmul(smul(a.e2, a.e2), Ok(v.e1))),
                rmul(smul(a.e3, a.e3), Ok(v.e1)),
            ),
            rmul(rmul(smul(stwo(), a.e1), Ok(a.e2)), Ok(v.e2)),
        ),
        rmul(rmul(smul(stwo(), a.e3), Ok(a.e1)), Ok(v.e3)),
    )
}

/// Second component of the closed-form reflection numerator.
pub open spec fn spec_refl_p2(v: Vec3, a: Vec3) -> Result<Scalar, GaError> {
    radd(
        radd(
            rsub(
                rsub(rmul(smul(a.e2, a.e2), Ok(v.e2)), rmul(smul(a.e3, a.e3), Ok(v.e2))),
                rmul(smul(a.e1, a.e1), Ok(v.e2)),
            ),
            rmul(rmul(smul(stwo(), a.e2), Ok(a.e3)), Ok(v.e3)),
        ),
        rmul(rmul(smul(stwo(), a.e1), Ok(a.e2)), Ok(v.e1)),
    )
}

/// Third component of the closed-form reflection numerator.
pub open spec fn spec_refl_p3(v: Vec3, a: Vec3) -> Result<Scalar, GaError> {
    radd(
        radd(
            rsub(
                rsub(rmul(smul(a.e3, a.e3), Ok(v.e3)), rmul(smul(a.e1, a.e1), Ok(v.e3))),
                rmul(smul(a.e2, a.e2), Ok(v.e3)),
            ),
            rmul(rmul(smul(stwo(), a.e3), Ok(a.e1)), Ok(v.e1)),
        ),
        rmul(rmul(smul(stwo(), a.e2), Ok(a.e3)), Ok(v.e2)),
    )
}

/// Reflection of `v` across the line spanned by `axis`: the closed-form
/// expansion of `axis * v * inverse(axis)` restricted to the vector grade,
/// divided by the axis's squared length.
pub open spec fn spec_reflected_by(v: Vec3, axis: Vec3) -> Result<Vec3, GaError> {
    match spec_refl_p1(v, axis) {
        Ok(x) => match spec_refl_p2(v, axis) {
            Ok(y) => match spec_refl_p3(v, axis) {
                Ok(z) => match spec_length_squared(axis) {
                    Ok(l) => spec_vdiv(Vec3 { e1: x, e2: y, e3: z }, l),
                    Err(e) => Err(e),
                },
                Err(e) => Err(e),
            },
            Err(e) => Err(e),
        },
        Err(e) => Err(e),
    }
}

/// Narrowing of an odd-graded element to a pure vector: succeeds exactly
/// when the trivector residue is within the fixed tolerance of zero.
pub open spec fn spec_try_from_dual(m: DualRotor3) -> Result<Vec3, GaError> {
    if fclose(m.e123.view(), Frac { n: 0, d: 1 }, EPS_DEN as int) {
        Ok(Vec3 { e1: m.e1, e2: m.e2, e3: m.e3 })
    } else {
        Err(GaError::NotAPureVector)
    }
}

/// Narrowing of a general element to a pure vector: succeeds exactly when
/// the scalar, bivector and trivector residues are all within the fixed
/// tolerance of zero.
pub open spec fn spec_try_from_multi(m: MultiVec3) -> Result<Vec3, GaError> {
    if fclose(m.e.view(), Frac { n: 0, d: 1 }, EPS_DEN as int) && fclose(
        m.e12.view(),
        Frac { n: 0, d: 1 },
        EPS_DEN as int,
    ) && fclose(m.e23.view(), Frac { n: 0, d: 1 }, EPS_DEN as int) && fclose(
        m.e31.view(),
        Frac { n: 0, d: 1 },
        EPS_DEN as int,
    ) && fclose(m.e123.view(), Frac { n: 0, d: 1 }, EPS_DEN as int) {
        Ok(Vec3 { e1: m.e1, e2: m.e2, e3: m.e3 })
    } else {
        Err(GaError::NotAPureVector)
    }
}

impl Default for Vec3 {
    /// The zero vector.
    fn default() -> (r: Vec3)
        ensures
            r == spec_vzero(),
            r.wf(),
    {
        Vec3::zero()
    }
}

/// The value of a dot product that came back without overflow: the sum of
/// the componentwise products.
pub proof fn lemma_dot_value(a: Vec3, b: Vec3, l: Scalar)
    requires
        a.wf(),
        b.wf(),
        spec_dot(a, b) == Ok::<Scalar, GaError>(l),
    ensures
        l.wf(),
        feq(
            l.view(),
            crate::frac::fadd(
                crate::frac::fadd(
                    crate::frac::fmul(a.e1.view(), b.e1.view()),
                    crate::frac::fmul(a.e2.view(), b.e2.view()),
                ),
                crate::frac::fmul(a.e3.view(), b.e3.view()),
            ),
        ),
{
    let r1 = smul(a.e1, b.e1);
    let r2 = smul(a.e2, b.e2);
    let r3 = smul(a.e3, b.e3);
    crate::scalar::lemma_smul_props(a.e1, b.e1);
    crate::scalar::lemma_smul_props(a.e2, b.e2);
    crate::scalar::lemma_smul_props(a.e3, b.e3);
    let m1 = r1->Ok_0;
    let m2 = r2->Ok_0;
    let m3 = r3->Ok_0;
    let r12 = crate::scalar::sadd(m1, m2);
    crate::scalar::lemma_sadd_props(m1, m2);
    let s12 = r12->Ok_0;
    crate::scalar::lemma_sadd_props(s12, m3);
    let f1 = crate::frac::fmul(a.e1.view(), b.e1.view());
    let f2 = crate::frac::fmul(a.e2.view(), b.e2.view());
    let f3 = crate::frac::fmul(a.e3.view(), b.e3.view());
    crate::frac::lemma_fadd_cong(m1.view(), f1, m2.view(), f2);
    assert(m1.view().d * m2.view().d >= 1) by (nonlinear_arith)
        requires
            m1.view().d >= 1,
            m2.view().d >= 1,
    ;
    crate::frac::lemma_feq_trans(
        s12.view(),
        crate::frac::fadd(m1.view(), m2.view()),
        crate::frac::fadd(f1, f2),
    );
    crate::frac::lemma_fadd_cong(s12.view(), crate::frac::fadd(f1, f2), m3.view(), f3);
    assert(s12.view().d * m3.view().d >= 1) by (nonlinear_arith)
        requires
            s12.view().d >= 1,
            m3.view().d >= 1,
    ;
    crate::frac::lemma_feq_trans(
        l.view(),
        crate::frac::fadd(s12.view(), m3.view()),
        crate::frac::fadd(crate::frac::fadd(f1, f2), f3),
    );
}

/// The numerator of a sum of three squared fractions is nonnegative, and
/// positive as soon as one numerator is nonzero.
proof fn lemma_sum_of_squares(x1: int, d1: int, x2: int, d2: int, x3: int, d3: int)
    by (nonlinear_arith)
    requires
        d1 >= 1,
        d2 >= 1,
        d3 >= 1,
    ensures
        (x1 * x1 * (d2 * d2) + x2 * x2 * (d1 * d1)) * (d3 * d3) + x3 * x3 * ((d1 * d1) * (d2
            * d2)) >= 0,
        (d1 * d1) * (d2 * d2) * (d3 * d3) >= 1,
        x1 != 0 || x2 != 0 || x3 != 0 ==> (x1 * x1 * (d2 * d2) + x2 * x2 * (d1 * d1)) * (d3
            * d3) + x3 * x3 * ((d1 * d1) * (d2 * d2)) >= 1,
{
}

/// The dot product of a vector with itself is nonnegative, and positive
/// for a nonzero vector.
pub proof fn lemma_dot_self_nonneg(v: Vec3, l: Scalar)
    requires
        v.wf(),
        spec_dot(v, v) == Ok::<Scalar, GaError>(l),
    ensures
        l.wf(),
        l.view().n >= 0,
        !spec_is_vzero(v) ==> l.view().n >= 1,
{
    lemma_dot_value(v, v, l);
    let x1 = v.e1.view().n;
    let d1 = v.e1.view().d;
    let x2 = v.e2.view().n;
    let d2 = v.e2.view().d;
    let x3 = v.e3.view().n;
    let d3 = v.e3.view().d;
    let sn = (x1 * x1 * (d2 * d2) + x2 * x2 * (d1 * d1)) * (d3 * d3) + x3 * x3 * ((d1 * d1) * (
    d2 * d2));
    let sd = (d1 * d1) * (d2 * d2) * (d3 * d3);
    lemma_sum_of_squares(x1, d1, x2, d2, x3, d3);
    assert(l.view().n * sd == sn * l.view().d);
    assert(l.view().n >= 0 && (sn >= 1 ==> l.view().n >= 1)) by (nonlinear_arith)
        requires
            l.view().n * sd == sn * l.view().d,
            sn >= 0,
            sd >= 1,
            l.view().d >= 1,
    ;
}

impl Vec3 {
    /// Every component is a canonical scalar.
    pub open spec fn wf(self) -> bool {
        self.e1.wf() && self.e2.wf() && self.e3.wf()
    }

    /// The vector with the given components.
    pub fn new(e1: Scalar, e2: Scalar, e3: Scalar) -> (r: Vec3)
        ensures
            r == (Vec3 { e1, e2, e3 }),
    {
        Vec3 { e1, e2, e3 }
    }

    /// The additive identity.
    pub fn zero() -> (r: Vec3)
        ensures
            r == spec_vzero(),
            r.wf(),
    {
        proof {
            crate::scalar::lemma_s_of_int_wf(0);
        }
        Vec3 { e1: Scalar::zero(), e2: Scalar::zero(), e3: Scalar::zero() }
    }

    /// The Euclidean inner product.
    pub fn dot(self, rhs: Vec3) -> (r: Result<Scalar, GaError>)
        requires
            self.wf(),
            rhs.wf(),
        ensures
            r == spec_dot(self, rhs),
            r matches Ok(s) ==> s.wf(),
    {
        let m1 = self.e1.mul(rhs.e1)?;
        let m2 = self.e2.mul(rhs.e2)?;
        let m3 = self.e3.mul(rhs.e3)?;
        let s = m1.add(m2)?.add(m3)?;
        Ok(s)
    }

    /// The squared Euclidean length.
    pub fn length_squared(self) -> (r: Result<Scalar, GaError>)
        requires
            self.wf(),
        ensures
            r == spec_length_squared(self),
            r matches Ok(s) ==> s.wf(),
    {
        self.dot(self)
    }

    /// The Euclidean length, as the floor of the true square root on a
    /// grid finer than the comparison tolerance.
    pub fn length(self) -> (r: Result<Scalar, GaError>)
        requires
            self.wf(),
        ensures
            r == spec_length(self),
            r matches Ok(s) ==> s.wf(),
    {
        let l = self.length_squared()?;
        proof {
            lemma_dot_self_nonneg(self, l);
        }
        l.sqrt()
    }

    /// The unit vector along `self`: division by the computed length, so a
    /// zero (or negligibly short) vector reports `DivisionByZero`.
    pub fn normalized(self) -> (r: Result<Vec3, GaError>)
        requires
            self.wf(),
        ensures
            r == spec_normalized(self),
            r matches Ok(v) ==> v.wf(),
    {
        let l = self.length()?;
        self.div(l)
    }

    /// The antisymmetric wedge (outer) product.
    pub fn wedge(self, rhs: Vec3) -> (r: Result<BiVec3, GaError>)
        requires
            self.wf(),
            rhs.wf(),
        ensures
            r == spec_wedge(self, rhs),
            r matches Ok(b) ==> b.wf(),
    {
        let m1 = self.e1.mul(rhs.e2)?;
        let m2 = self.e2.mul(rhs.e1)?;
        let c12 = m1.sub(m2)?;
        let n1 = self.e2.mul(rhs.e3)?;
        let n2 = self.e3.mul(rhs.e2)?;
        let c23 = n1.sub(n2)?;
        let p1 = self.e3.mul(rhs.e1)?;
        let p2 = self.e1.mul(rhs.e3)?;
        let c31 = p1.sub(p2)?;
        Ok(BiVec3 { e12: c12, e23: c23, e31: c31 })
    }

    /// Componentwise sum.
    pub fn add(self, rhs: Vec3) -> (r: Result<Vec3, GaError>)
        requires
            self.wf(),
            rhs.wf(),
        ensures
            r == spec_vadd(self, rhs),
            r matches Ok(v) ==> v.wf(),
    {
        let x = self.e1.add(rhs.e1)?;
        let y = self.e2.add(rhs.e2)?;
        let z = self.e3.add(rhs.e3)?;
        Ok(Vec3 { e1: x, e2: y, e3: z })
    }

    /// Componentwise difference.
    pub fn sub(self, rhs: Vec3) -> (r: Result<Vec3, GaError>)
        requires
            self.wf(),
            rhs.wf(),
        ensures
            r == spec_vsub(self, rhs),
            r matches Ok(v) ==> v.wf(),
    {
        let x = self.e1.sub(rhs.e1)?;
        let y = self.e2.sub(rhs.e2)?;
        let z = self.e3.sub(rhs.e3)?;
        Ok(Vec3 { e1: x, e2: y, e3: z })
    }

    /// Componentwise negation; exact and always canonical.
    pub fn neg(self) -> (r: Vec3)
        requires
            self.wf(),
        ensures
            r == spec_vneg(self),
            r.wf(),
    {
        Vec3 { e1: self.e1.neg(), e2: self.e2.neg(), e3: self.e3.neg() }
    }

    /// Multiplication by a scalar on the right.
    pub fn scale(self, rhs: Scalar) -> (r: Result<Vec3, GaError>)
        requires
            self.wf(),
            rhs.wf(),
        ensures
            r == spec_scale(self, rhs),
            r matches Ok(v) ==> v.wf(),
    {
        let x = self.e1.mul(rhs)?;
        let y = self.e2.mul(rhs)?;
        let z = self.e3.mul(rhs)?;
        Ok(Vec3 { e1: x, e2: y, e3: z })
    }

    /// Division by a scalar; `DivisionByZero` exactly when it is zero.
    pub fn div(self, rhs: Scalar) -> (r: Result<Vec3, GaError>)
        requires
            self.wf(),
            rhs.wf(),
        ensures
            r == spec_vdiv(self, rhs),
            r matches Ok(v) ==> v.wf(),
    {
        let x = self.e1.div(rhs)?;
        let y = self.e2.div(rhs)?;
        let z = self.e3.div(rhs)?;
        Ok(Vec3 { e1: x, e2: y, e3: z })
    }

    /// The geometric product of two vectors: dot part plus wedge part.
    pub fn mul(self, rhs: Vec3) -> (r: Result<Rotor3, GaError>)
        requires
            self.wf(),
            rhs.wf(),
        ensures
            r == spec_vv_mul(self, rhs),
            r matches Ok(c) ==> c.wf(),
    {
        let s = self.dot(rhs)?;
        let w = self.wedge(rhs)?;
        Ok(Rotor3::new(s, w))
    }

    /// Whether this is exactly the zero vector.
    pub fn is_zero(self) -> (r: bool)
        requires
            self.wf(),
        ensures
            r == spec_is_vzero(self),
            r ==> self == spec_vzero(),
    {
        self.e1.is_zero() && self.e2.is_zero() && self.e3.is_zero()
    }

    /// Componentwise comparison within the fixed tolerance `1 / EPS_DEN`.
    pub fn is_close(self, rhs: Vec3) -> (r: bool)
        requires
            self.wf(),
            rhs.wf(),
        ensures
            r == (fclose(self.e1.view(), rhs.e1.view(), EPS_DEN as int) && fclose(
                self.e2.view(),
                rhs.e2.view(),
                EPS_DEN as int,
            ) && fclose(self.e3.view(), rhs.e3.view(), EPS_DEN as int)),
    {
        self.e1.is_close(rhs.e1) && self.e2.is_close(rhs.e2) && self.e3.is_close(rhs.e3)
    }

    /// The squared Euclidean distance to `rhs`, exactly.
    pub fn distance_squared(self, rhs: Vec3) -> (r: Result<Scalar, GaError>)
        requires
            self.wf(),
            rhs.wf(),
        ensures
            r == spec_distance_squared(self, rhs),
            r matches Ok(s) ==> s.wf(),
    {
        let d = self.sub(rhs)?;
        d.length_squared()
    }

    /// The alternative comparator: whether the squared distance between the
    /// vectors is below `1 / DIST_EPS_DEN`.  The componentwise `is_close`
    /// is what the narrowing conversions use; this one weighs all three
    /// axes together.
    pub fn is_close_by_distance(self, rhs: Vec3) -> (r: Result<bool, GaError>)
        requires
            self.wf(),
            rhs.wf(),
        ensures
            r == (match spec_distance_squared(self, rhs) {
                Ok(d2) => Ok::<bool, GaError>(
                    crate::frac::flt(d2.view(), Frac { n: 1, d: DIST_EPS_DEN as int }),
                ),
                Err(e) => Err::<bool, GaError>(e),
            }),
    {
        let d = self.sub(rhs)?;
        let d2 = d.length_squared()?;
        Ok((d2.num as i128) * (DIST_EPS_DEN as i128) < d2.den as i128)
    }

    /// The inverse `v / (v . v)`; `DivisionByZero` exactly on the zero
    /// vector.
    pub fn inverse(self) -> (r: Result<Vec3, GaError>)
        requires
            self.wf(),
        ensures
            r == spec_inverse(self),
            r matches Ok(v) ==> v.wf(),
    {
        if self.is_zero() {
            return Err(GaError::DivisionByZero);
        }
        let l = self.length_squared()?;
        self.div(l)
    }

    /// Reflection of `self` across the line spanned by `axis`, by the
    /// closed-form expansion of the sandwich `axis * v * inverse(axis)`.
    /// `DivisionByZero` exactly on a zero axis (unless an earlier step
    /// overflows).
    pub fn reflected_by(self, axis: Vec3) -> (r: Result<Vec3, GaError>)
        requires
            self.wf(),
            axis.wf(),
        ensures
            r == spec_reflected_by(self, axis),
            r matches Ok(v) ==> v.wf(),
    {
        let p1 = self.refl_component(axis.e1, axis.e2, axis.e3, self.e1, axis.e2, self.e2,
            axis.e3, self.e3)?;
        let p2 = self.refl_component(axis.e2, axis.e3, axis.e1, self.e2, axis.e3, self.e3,
            axis.e1, self.e1)?;
        let p3 = self.refl_component(axis.e3, axis.e1, axis.e2, self.e3, axis.e1, self.e1,
            axis.e2, self.e2)?;
        let l = axis.length_squared()?;
        Vec3 { e1: p1, e2: p2, e3: p3 }.div(l)
    }

    /// One numerator component of the closed-form reflection:
    /// `a*a*v - b*b*v - c*c*v + 2*a*x2*v2 + 2*x3*a*v3`.
    fn refl_component(self, a: Scalar, b: Scalar, c: Scalar, v: Scalar, x2: Scalar, v2: Scalar,
        x3: Scalar, v3: Scalar) -> (r: Result<Scalar, GaError>)
        requires
            a.wf(),
            b.wf(),
            c.wf(),
            v.wf(),
            x2.wf(),
            v2.wf(),
            x3.wf(),
            v3.wf(),
        ensures
            r == radd(
                radd(
                    rsub(
                        rsub(rmul(smul(a, a), Ok(v)), rmul(smul(b, b), Ok(v))),
                        rmul(smul(c, c), Ok(v)),
                    ),
                    rmul(rmul(smul(stwo(), a), Ok(x2)), Ok(v2)),
                ),
                rmul(rmul(smul(stwo(), x3), Ok(a)), Ok(v3)),
            ),
            r matches Ok(s) ==> s.wf(),
    {
        let two = Scalar::from_int(2);
        let t1 = a.mul(a)?.mul(v)?;
        let t2 = b.mul(b)?.mul(v)?;
        let t3 = c.mul(c)?.mul(v)?;
        let t4 = two.mul(a)?.mul(x2)?.mul(v2)?;
        let t5 = two.mul(x3)?.mul(a)?.mul(v3)?;
        let s = t1.sub(t2)?.sub(t3)?.add(t4)?.add(t5)?;
        Ok(s)
    }

    /// Narrowing from an odd-graded element; `NotAPureVector` exactly when
    /// the trivector residue is beyond tolerance.
    pub fn try_from_dual_rotor(m: DualRotor3) -> (r: Result<Vec3, GaError>)
        requires
            m.wf(),
        ensures
            r == spec_try_from_dual(m),
            r matches Ok(v) ==> v.wf(),
    {
        proof {
            crate::scalar::lemma_s_of_int_wf(0);
        }
        if m.e123.is_close(Scalar::zero()) {
            Ok(Vec3 { e1: m.e1, e2: m.e2, e3: m.e3 })
        } else {
            Err(GaError::NotAPureVector)
        }
    }

    /// Narrowing from a general element; `NotAPureVector` exactly when some
    /// non-vector component is beyond tolerance.
    pub fn try_from_multi_vec(m: MultiVec3) -> (r: Result<Vec3, GaError>)
        requires
            m.wf(),
        ensures
            r == spec_try_from_multi(m),
            r matches Ok(v) ==> v.wf(),
    {
        proof {
            crate::scalar::lemma_s_of_int_wf(0);
        }
        let z = Scalar::zero();
        if m.e.is_close(z) && m.e12.is_close(z) && m.e23.is_close(z) && m.e31.is_close(z)
            && m.e123.is_close(z) {
            Ok(Vec3 { e1: m.e1, e2: m.e2, e3: m.e3 })
        } else {
            Err(GaError::NotAPureVector)
        }
    }
}

} // verus!
