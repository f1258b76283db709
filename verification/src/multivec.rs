//! The full multivector: the closure of the algebra under the geometric
//! product.
//!
//! `MultiVec3` carries all eight graded components at once; its product is
//! the canonical multiplication table of which every narrower product is a
//! specialization (`laws` proves the agreement).

use vstd::prelude::*;
use crate::scalar::{Scalar, szero, sneg, smul, radd, rsub};
use crate::bivec3::BiVec3;
use crate::trivec3::TriVec3;
use crate::vec3::Vec3;
use crate::GaError;

verus! {

/// A fully general graded element: scalar, vector, bivector and trivector
/// parts.
#[derive(Clone, Copy, Debug, PartialEq, Eq, Structural)]
pub struct MultiVec3 {
    pub e: Scalar,
    pub e1: Scalar,
    pub e2: Scalar,
    pub e3: Scalar,
    pub e12: Scalar,
    pub e23: Scalar,
    pub e31: Scalar,
    pub e123: Scalar,
}

/// A multivector assembled from its four graded parts.
pub open spec fn spec_mv_new(scalar: Scalar, vec3: Vec3, bivec3: BiVec3, trivec3: TriVec3) -> MultiVec3 {
    MultiVec3 {
        e: scalar,
        e1: vec3.e1,
        e2: vec3.e2,
        e3: vec3.e3,
        e12: bivec3.e12,
        e23: bivec3.e23,
        e31: bivec3.e31,
        e123: trivec3.e123,
    }
}

/// The zero multivector.
pub open spec fn spec_mzero() -> MultiVec3 {
    MultiVec3 {
        e: szero(),
        e1: szero(),
        e2: szero(),
        e3: szero(),
        e12: szero(),
        e23: szero(),
        e31: szero(),
        e123: szero(),
    }
}

/// The scalar component of the full geometric product.
pub open spec fn mv_e(a: MultiVec3, b: MultiVec3) -> Result<Scalar, GaError> {
    rsub(
        rsub(
            rsub(
                rsub(
                    radd(
                        radd(radd(smul(a.e, b.e), smul(a.e1, b.e1)), smul(a.e2, b.e2)),
                        smul(a.e3, b.e3),
                    ),
                    smul(a.e12, b.e12),
                ),
                smul(a.e23, b.e23),
            ),
            smul(a.e31, b.e31),
        ),
        smul(a.e123, b.e123),
    )
}

/// The `e1` component of the full geometric product.
pub open spec fn mv_e1(a: MultiVec3, b: MultiVec3) -> Result<Scalar, GaError> {
    rsub(
        rsub(
            rsub(
                radd(
                    radd(
                        rsub(radd(smul(a.e, b.e1), smul(a.e1, b.e)), smul(a.e2, b.e12)),
                        smul(a.e3, b.e31),
                    ),
                    smul(a.e12, b.e2),
                ),
                smul(a.e31, b.e3),
            ),
            smul(a.e23, b.e123),
        ),
        smul(a.e123, b.e23),
    )
}

/// The `e2` component of the full geometric product.
pub open spec fn mv_e2(a: MultiVec3, b: MultiVec3) -> Result<Scalar, GaError> {
    rsub(
        rsub(
            radd(
                rsub(
                    rsub(radd(radd(smul(a.e, b.e2), smul(a.e2, b.e)), smul(a.e1, b.e12)), smul(a.e3, b.e23)),
                    smul(a.e12, b.e1),
                ),
                smul(a.e23, b.e3),
            ),
            smul(a.e31, b.e123),
        ),
        smul(a.e123, b.e31),
    )
}

/// The `e3` component of the full geometric product.
pub open spec fn mv_e3(a: MultiVec3, b: MultiVec3) -> Result<Scalar, GaError> {
    rsub(
        radd(
            rsub(
                rsub(
                    radd(rsub(radd(smul(a.e, b.e3), smul(a.e3, b.e)), smul(a.e1, b.e31)), smul(a.e2, b.e23)),
                    smul(a.e12, b.e123),
                ),
                smul(a.e23, b.e2),
            ),
            smul(a.e31, b.e1),
        ),
        smul(a.e123, b.e12),
    )
}

/// The `e12` component of the full geometric product.
pub open spec fn mv_e12(a: MultiVec3, b: MultiVec3) -> Result<Scalar, GaError> {
    radd(
        radd(
            rsub(
                radd(
                    rsub(radd(radd(smul(a.e, b.e12), smul(a.e12, b.e)), smul(a.e1, b.e2)), smul(a.e2, b.e1)),
                    smul(a.e3, b.e123),
                ),
                smul(a.e23, b.e31),
            ),
            smul(a.e31, b.e23),
        ),
        smul(a.e123, b.e3),
    )
}

/// The `e23` component of the full geometric product.
pub open spec fn mv_e23(a: MultiVec3, b: MultiVec3) -> Result<Scalar, GaError> {
    radd(
        rsub(
            radd(
                rsub(
                    radd(radd(radd(smul(a.e, b.e23), smul(a.e23, b.e)), smul(a.e1, b.e123)), smul(a.e2, b.e3)),
                    smul(a.e3, b.e2),
                ),
                smul(a.e12, b.e31),
            ),
            smul(a.e31, b.e12),
        ),
        smul(a.e123, b.e1),
    )
}

/// The `e31` component of the full geometric product.
pub open spec fn mv_e31(a: MultiVec3, b: MultiVec3) -> Result<Scalar, GaError> {
    radd(
        radd(
            rsub(
                radd(
                    radd(rsub(radd(smul(a.e, b.e31), smul(a.e31, b.e)), smul(a.e1, b.e3)), smul(a.e2, b.e123)),
                    smul(a.e3, b.e1),
                ),
                smul(a.e12, b.e23),
            ),
            smul(a.e23, b.e12),
        ),
        smul(a.e123, b.e2),
    )
}

/// The `e123` component of the full geometric product.
pub open spec fn mv_e123(a: MultiVec3, b: MultiVec3) -> Result<Scalar, GaError> {
    radd(
        radd(
            radd(
                radd(
                    radd(radd(radd(smul(a.e, b.e123), smul(a.e123, b.e)), smul(a.e1, b.e23)), smul(a.e23, b.e1)),
                    smul(a.e2, b.e31),
                ),
                smul(a.e31, b.e2),
            ),
            smul(a.e3, b.e12),
        ),
        smul(a.e12, b.e3),
    )
}

/// The full geometric product of two multivectors.
pub open spec fn spec_mv_mul(a: MultiVec3, b: MultiVec3) -> Result<MultiVec3, GaError> {
    match mv_e(a, b) {
        Ok(ce) => match mv_e1(a, b) {
            Ok(c1) => match mv_e2(a, b) {
                Ok(c2) => match mv_e3(a, b) {
                    Ok(c3) => match mv_e12(a, b) {
                        Ok(c12) => match mv_e23(a, b) {
                            Ok(c23) => match mv_e31(a, b) {
                                Ok(c31) => match mv_e123(a, b) {
                                    Ok(c123) => Ok(MultiVec3 {
                                        e: ce,
                                        e1: c1,
                                        e2: c2,
                                        e3: c3,
                                        e12: c12,
                                        e23: c23,
                                        e31: c31,
                                        e123: c123,
                                    }),
                                    Err(e) => Err(e),
                                },
                                Err(e) => Err(e),
                            },
                            Err(e) => Err(e),
                        },
                        Err(e) => Err(e),
                    },
                    Err(e) => Err(e),
                },
                Err(e) => Err(e),
            },
            Err(e) => Err(e),
        },
        Err(e) => Err(e),
    }
}

/// The specialization of the product to a vector on the right.
pub open spec fn spec_mvv_mul(a: MultiVec3, v: Vec3) -> Result<MultiVec3, GaError> {
    let ce = radd(radd(smul(a.e1, v.e1), smul(a.e2, v.e2)), smul(a.e3, v.e3));
    let c1 = rsub(radd(smul(a.e, v.e1), smul(a.e12, v.e2)), smul(a.e31, v.e3));
    let c2 = radd(rsub(smul(a.e, v.e2), smul(a.e12, v.e1)), smul(a.e23, v.e3));
    let c3 = radd(rsub(smul(a.e, v.e3), smul(a.e23, v.e2)), smul(a.e31, v.e1));
    let c12 = radd(rsub(smul(a.e1, v.e2), smul(a.e2, v.e1)), smul(a.e123, v.e3));
    let c23 = radd(rsub(smul(a.e2, v.e3), smul(a.e3, v.e2)), smul(a.e123, v.e1));
    let c31 = radd(radd(smul(sneg(a.e1), v.e3), smul(a.e3, v.e1)), smul(a.e123, v.e2));
    let c123 = radd(radd(smul(a.e23, v.e1), smul(a.e31, v.e2)), smul(a.e12, v.e3));
    match ce {
        Ok(x0) => match c1 {
            Ok(x1) => match c2 {
                Ok(x2) => match c3 {
                    Ok(x3) => match c12 {
                        Ok(x12) => match c23 {
                            Ok(x23) => match c31 {
                                Ok(x31) => match c123 {
                                    Ok(x123) => Ok(MultiVec3 {
                                        e: x0,
                                        e1: x1,
                                        e2: x2,
                                        e3: x3,
                                        e12: x12,
                                        e23: x23,
                                        e31: x31,
                                        e123: x123,
                                    }),
                                    Err(e) => Err(e),
                                },
                                Err(e) => Err(e),
                            },
                            Err(e) => Err(e),
                        },
                        Err(e) => Err(e),
                    },
                    Err(e) => Err(e),
                },
                Err(e) => Err(e),
            },
            Err(e) => Err(e),
        },
        Err(e) => Err(e),
    }
}

impl MultiVec3 {
    /// Every component is a canonical scalar.
    pub open spec fn wf(self) -> bool {
        self.e.wf() && self.e1.wf() && self.e2.wf() && self.e3.wf() && self.e12.wf()
            && self.e23.wf() && self.e31.wf() && self.e123.wf()
    }

    /// The multivector with the given graded parts.
    pub fn new(scalar: Scalar, vec3: Vec3, bivec3: BiVec3, trivec3: TriVec3) -> (r: MultiVec3)
        ensures
            r == spec_mv_new(scalar, vec3, bivec3, trivec3),
    {
        MultiVec3 {
            e: scalar,
            e1: vec3.e1,
            e2: vec3.e2,
            e3: vec3.e3,
            e12: bivec3.e12,
            e23: bivec3.e23,
            e31: bivec3.e31,
            e123: trivec3.e123,
        }
    }

    /// The additive identity.
    pub fn zero() -> (r: MultiVec3)
        ensures
            r == spec_mzero(),
            r.wf(),
    {
        proof {
            crate::scalar::lemma_s_of_int_wf(0);
        }
        MultiVec3::new(Scalar::zero(), Vec3::zero(), BiVec3::zero(), TriVec3::zero())
    }

    /// The full geometric product: the canonical 8-by-8 multiplication
    /// table of the algebra.
    #[verifier::rlimit(100)]
    pub fn mul(self, rhs: MultiVec3) -> (r: Result<MultiVec3, GaError>)
        requires
            self.wf(),
            rhs.wf(),
        ensures
            r == spec_mv_mul(self, rhs),
            r matches Ok(c) ==> c.wf(),
    {
        let a = self;
        let b = rhs;
        let m1 = a.e.mul(b.e)?;
        let m2 = a.e1.mul(b.e1)?;
        let m3 = a.e2.mul(b.e2)?;
        let m4 = a.e3.mul(b.e3)?;
        let m5 = a.e12.mul(b.e12)?;
        let m6 = a.e23.mul(b.e23)?;
        let m7 = a.e31.mul(b.e31)?;
        let m8 = a.e123.mul(b.e123)?;
        let ce = m1.add(m2)?.add(m3)?.add(m4)?.sub(m5)?.sub(m6)?.sub(m7)?.sub(m8)?;
        let n1 = a.e.mul(b.e1)?;
        let n2 = a.e1.mul(b.e)?;
        let n3 = a.e2.mul(b.e12)?;
        let n4 = a.e3.mul(b.e31)?;
        let n5 = a.e12.mul(b.e2)?;
        let n6 = a.e31.mul(b.e3)?;
        let n7 = a.e23.mul(b.e123)?;
        let n8 = a.e123.mul(b.e23)?;
        let c1 = n1.add(n2)?.sub(n3)?.add(n4)?.add(n5)?.sub(n6)?.sub(n7)?.sub(n8)?;
        let p1 = a.e.mul(b.e2)?;
        let p2 = a.e2.mul(b.e)?;
        let p3 = a.e1.mul(b.e12)?;
        let p4 = a.e3.mul(b.e23)?;
        let p5 = a.e12.mul(b.e1)?;
        let p6 = a.e23.mul(b.e3)?;
        let p7 = a.e31.mul(b.e123)?;
        let p8 = a.e123.mul(b.e31)?;
        let c2 = p1.add(p2)?.add(p3)?.sub(p4)?.sub(p5)?.add(p6)?.sub(p7)?.sub(p8)?;
        let q1 = a.e.mul(b.e3)?;
        let q2 = a.e3.mul(b.e)?;
        let q3 = a.e1.mul(b.e31)?;
        let q4 = a.e2.mul(b.e23)?;
        let q5 = a.e12.mul(b.e123)?;
        let q6 = a.e23.mul(b.e2)?;
        let q7 = a.e31.mul(b.e1)?;
        let q8 = a.e123.mul(b.e12)?;
        let c3 = q1.add(q2)?.sub(q3)?.add(q4)?.sub(q5)?.sub(q6)?.add(q7)?.sub(q8)?;
        let r1 = a.e.mul(b.e12)?;
        let r2 = a.e12.mul(b.e)?;
        let r3 = a.e1.mul(b.e2)?;
        let r4 = a.e2.mul(b.e1)?;
        let r5 = a.e3.mul(b.e123)?;
        let r6 = a.e23.mul(b.e31)?;
        let r7 = a.e31.mul(b.e23)?;
        let r8 = a.e123.mul(b.e3)?;
        let c12 = r1.add(r2)?.add(r3)?.sub(r4)?.add(r5)?.sub(r6)?.add(r7)?.add(r8)?;
        let s1 = a.e.mul(b.e23)?;
        let s2 = a.e23.mul(b.e)?;
        let s3 = a.e1.mul(b.e123)?;
        let s4 = a.e2.mul(b.e3)?;
        let s5 = a.e3.mul(b.e2)?;
        let s6 = a.e12.mul(b.e31)?;
        let s7 = a.e31.mul(b.e12)?;
        let s8 = a.e123.mul(b.e1)?;
        let c23 = s1.add(s2)?.add(s3)?.add(s4)?.sub(s5)?.add(s6)?.sub(s7)?.add(s8)?;
        let t1 = a.e.mul(b.e31)?;
        let t2 = a.e31.mul(b.e)?;
        let t3 = a.e1.mul(b.e3)?;
        let t4 = a.e2.mul(b.e123)?;
        let t5 = a.e3.mul(b.e1)?;
        let t6 = a.e12.mul(b.e23)?;
        let t7 = a.e23.mul(b.e12)?;
        let t8 = a.e123.mul(b.e2)?;
        let c31 = t1.add(t2)?.sub(t3)?.add(t4)?.add(t5)?.sub(t6)?.add(t7)?.add(t8)?;
        let u1 = a.e.mul(b.e123)?;
        let u2 = a.e123.mul(b.e)?;
        let u3 = a.e1.mul(b.e23)?;
        let u4 = a.e23.mul(b.e1)?;
        let u5 = a.e2.mul(b.e31)?;
        let u6 = a.e31.mul(b.e2)?;
        let u7 = a.e3.mul(b.e12)?;
        let u8 = a.e12.mul(b.e3)?;
        let c123 = u1.add(u2)?.add(u3)?.add(u4)?.add(u5)?.add(u6)?.add(u7)?.add(u8)?;
        Ok(MultiVec3 {
            e: ce,
            e1: c1,
            e2: c2,
            e3: c3,
            e12: c12,
            e23: c23,
            e31: c31,
            e123: c123,
        })
    }

    /// The specialization of the product to a vector on the right, used as
    /// a sandwich step.
    pub fn mul_vec(self, rhs: Vec3) -> (r: Result<MultiVec3, GaError>)
        requires
            self.wf(),
            rhs.wf(),
        ensures
            r == spec_mvv_mul(self, rhs),
            r matches Ok(c) ==> c.wf(),
    {
        let a = self;
        let v = rhs;
        let m1 = a.e1.mul(v.e1)?;
        let m2 = a.e2.mul(v.e2)?;
        let m3 = a.e3.mul(v.e3)?;
        let ce = m1.add(m2)?.add(m3)?;
        let n1 = a.e.mul(v.e1)?;
        let n2 = a.e12.mul(v.e2)?;
        let n3 = a.e31.mul(v.e3)?;
        let c1 = n1.add(n2)?.sub(n3)?;
        let p1 = a.e.mul(v.e2)?;
        let p2 = a.e12.mul(v.e1)?;
        let p3 = a.e23.mul(v.e3)?;
        let c2 = p1.sub(p2)?.add(p3)?;
        let q1 = a.e.mul(v.e3)?;
        let q2 = a.e23.mul(v.e2)?;
        let q3 = a.e31.mul(v.e1)?;
        let c3 = q1.sub(q2)?.add(q3)?;
        let r1 = a.e1.mul(v.e2)?;
        let r2 = a.e2.mul(v.e1)?;
        let r3 = a.e123.mul(v.e3)?;
        let c12 = r1.sub(r2)?.add(r3)?;
        let s1 = a.e2.mul(v.e3)?;
        let s2 = a.e3.mul(v.e2)?;
        let s3 = a.e123.mul(v.e1)?;
        let c23 = s1.sub(s2)?.add(s3)?;
        let t1 = a.e1.neg().mul(v.e3)?;
        let t2 = a.e3.mul(v.e1)?;
        let t3 = a.e123.mul(v.e2)?;
        let c31 = t1.add(t2)?.add(t3)?;
        let u1 = a.e23.mul(v.e1)?;
        let u2 = a.e31.mul(v.e2)?;
        let u3 = a.e12.mul(v.e3)?;
        let c123 = u1.add(u2)?.add(u3)?;
        Ok(MultiVec3 {
            e: ce,
            e1: c1,
            e2: c2,
            e3: c3,
            e12: c12,
            e23: c23,
            e31: c31,
            e123: c123,
        })
    }
}

impl Default for MultiVec3 {
    /// The zero multivector.
    fn default() -> (r: MultiVec3)
        ensures
            r == spec_mzero(),
            r.wf(),
    {
        MultiVec3::zero()
    }
}

} // verus!
