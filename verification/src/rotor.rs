//! Rotors and dual rotors: the even and odd halves of the algebra.
//!
//! A `Rotor3` (scalar plus bivector) represents a rotation when it has unit
//! magnitude; a `DualRotor3` (vector plus trivector) arises as the
//! intermediate of `rotor * vector`.  The closed-form products here are the
//! even/odd specializations of the full `MultiVec3` multiplication table;
//! `laws` proves them in exact agreement with it.

use vstd::prelude::*;
use crate::scalar::{Scalar, szero, sone, sneg, smul, radd, rsub, rmul};
use crate::bivec3::{BiVec3, spec_bzero};
use crate::trivec3::{TriVec3, spec_tzero};
use crate::vec3::{Vec3, spec_vzero};
use crate::GaError;

verus! {

/// An even-graded element: scalar plus bivector.
#[derive(Clone, Copy, Debug, PartialEq, Eq, Structural)]
pub struct Rotor3 {
    pub e: Scalar,
    pub e12: Scalar,
    pub e23: Scalar,
    pub e31: Scalar,
}

/// An odd-graded element: vector plus trivector.
#[derive(Clone, Copy, Debug, PartialEq, Eq, Structural)]
pub struct DualRotor3 {
    pub e1: Scalar,
    pub e2: Scalar,
    pub e3: Scalar,
    pub e123: Scalar,
}

/// A rotor assembled from a scalar part and a bivector part.
pub open spec fn spec_rotor_new(scalar: Scalar, bivec3: BiVec3) -> Rotor3 {
    Rotor3 { e: scalar, e12: bivec3.e12, e23: bivec3.e23, e31: bivec3.e31 }
}

/// The zero rotor.
pub open spec fn spec_rzero() -> Rotor3 {
    spec_rotor_new(szero(), spec_bzero())
}

/// The identity rotation: scalar one, no bivector part.
pub open spec fn spec_ridentity() -> Rotor3 {
    spec_rotor_new(sone(), spec_bzero())
}

/// A dual rotor assembled from a vector part and a trivector part.
pub open spec fn spec_dual_new(vec3: Vec3, trivec3: TriVec3) -> DualRotor3 {
    DualRotor3 { e1: vec3.e1, e2: vec3.e2, e3: vec3.e3, e123: trivec3.e123 }
}

/// The zero dual rotor.
pub open spec fn spec_dzero() -> DualRotor3 {
    spec_dual_new(spec_vzero(), spec_tzero())
}

/// The geometric product of two rotors, componentwise over the even
/// subalgebra.
pub open spec fn spec_rr_mul(a: Rotor3, b: Rotor3) -> Result<Rotor3, GaError> {
    let ce = rsub(
        rsub(rsub(smul(a.e, b.e), smul(a.e12, b.e12)), smul(a.e23, b.e23)),
        smul(a.e31, b.e31),
    );
    let c12 = radd(
        rsub(radd(smul(a.e, b.e12), smul(a.e12, b.e)), smul(a.e23, b.e31)),
        smul(a.e31, b.e23),
    );
    let c23 = rsub(
        radd(radd(smul(a.e, b.e23), smul(a.e23, b.e)), smul(a.e12, b.e31)),
        smul(a.e31, b.e12),
    );
    let c31 = radd(
        rsub(radd(smul(a.e, b.e31), smul(a.e31, b.e)), smul(a.e12, b.e23)),
        smul(a.e23, b.e12),
    );
    match ce {
        Ok(x) => match c12 {
            Ok(y) => match c23 {
                Ok(z) => match c31 {
                    Ok(w) => Ok(Rotor3 { e: x, e12: y, e23: z, e31: w }),
                    Err(e) => Err(e),
                },
                Err(e) => Err(e),
            },
            Err(e) => Err(e),
        },
        Err(e) => Err(e),
    }
}

/// The geometric product of a rotor and a vector: an odd-graded result.
pub open spec fn spec_rv_mul(a: Rotor3, v: Vec3) -> Result<DualRotor3, GaError> {
    let c1 = rsub(radd(smul(a.e, v.e1), smul(a.e12, v.e2)), smul(a.e31, v.e3));
    let c2 = rsub(radd(smul(a.e, v.e2), smul(a.e23, v.e3)), smul(a.e12, v.e1));
    let c3 = rsub(radd(smul(a.e, v.e3), smul(a.e31, v.e1)), smul(a.e23, v.e2));
    let c123 = radd(radd(smul(a.e12, v.e3), smul(a.e23, v.e1)), smul(a.e31, v.e2));
    match c1 {
        Ok(x) => match c2 {
            Ok(y) => match c3 {
                Ok(z) => match c123 {
                    Ok(w) => Ok(DualRotor3 { e1: x, e2: y, e3: z, e123: w }),
                    Err(e) => Err(e),
                },
                Err(e) => Err(e),
            },
            Err(e) => Err(e),
        },
        Err(e) => Err(e),
    }
}

/// The geometric product of a dual rotor and a vector: an even-graded
/// result.
pub open spec fn spec_dv_mul(d: DualRotor3, v: Vec3) -> Result<Rotor3, GaError> {
    let ce = radd(radd(smul(d.e1, v.e1), smul(d.e2, v.e2)), smul(d.e3, v.e3));
    let c12 = radd(rsub(smul(d.e1, v.e2), smul(d.e2, v.e1)), smul(d.e123, v.e3));
    let c23 = radd(rsub(smul(d.e2, v.e3), smul(d.e3, v.e2)), smul(d.e123, v.e1));
    let c31 = radd(radd(smul(sneg(d.e1), v.e3), smul(d.e3, v.e1)), smul(d.e123, v.e2));
    match ce {
        Ok(x) => match c12 {
            Ok(y) => match c23 {
                Ok(z) => match c31 {
                    Ok(w) => Ok(Rotor3 { e: x, e12: y, e23: z, e31: w }),
                    Err(e) => Err(e),
                },
                Err(e) => Err(e),
            },
            Err(e) => Err(e),
        },
        Err(e) => Err(e),
    }
}

/// How `from_to` reports a failed normalization: an exactly zero (or
/// negligibly short) input or halfway vector is a degenerate rotor input
/// rather than a bare division failure.
pub open spec fn degenerate_of(e: GaError) -> GaError {
    if e == GaError::DivisionByZero {
        GaError::DegenerateRotorInput
    } else {
        e
    }
}

/// The rotor turning the direction of `from` onto the direction of `to`:
/// both are normalized, and the normalized `from` is multiplied by the
/// normalized halfway vector.
pub open spec fn spec_from_to(from: Vec3, to: Vec3) -> Result<Rotor3, GaError> {
    match crate::vec3::spec_normalized(from) {
        Ok(f) => match crate::vec3::spec_normalized(to) {
            Ok(t) => match crate::vec3::spec_vadd(f, t) {
                Ok(sum) => match crate::vec3::spec_normalized(sum) {
                    Ok(h) => crate::vec3::spec_vv_mul(f, h),
                    Err(e) => Err(degenerate_of(e)),
                },
                Err(e) => Err(e),
            },
            Err(e) => Err(degenerate_of(e)),
        },
        Err(e) => Err(degenerate_of(e)),
    }
}

/// Exec counterpart of `degenerate_of`.
fn map_degenerate(e: GaError) -> (r: GaError)
    ensures
        r == degenerate_of(e),
{
    match e {
        GaError::DivisionByZero => GaError::DegenerateRotorInput,
        _ => e,
    }
}

impl Rotor3 {
    /// Every component is a canonical scalar.
    pub open spec fn wf(self) -> bool {
        self.e.wf() && self.e12.wf() && self.e23.wf() && self.e31.wf()
    }

    /// The rotor with the given scalar and bivector parts.
    pub fn new(scalar: Scalar, bivec3: BiVec3) -> (r: Rotor3)
        ensures
            r == spec_rotor_new(scalar, bivec3),
    {
        Rotor3 { e: scalar, e12: bivec3.e12, e23: bivec3.e23, e31: bivec3.e31 }
    }

    /// The additive identity.
    pub fn zero() -> (r: Rotor3)
        ensures
            r == spec_rzero(),
            r.wf(),
    {
        proof {
            crate::scalar::lemma_s_of_int_wf(0);
        }
        Rotor3::new(Scalar::zero(), BiVec3::zero())
    }

    /// The identity rotation: any rotor with only a scalar component leaves
    /// vectors in place up to scale; this one is the unit.
    pub fn identity() -> (r: Rotor3)
        ensures
            r == spec_ridentity(),
            r.wf(),
    {
        proof {
            crate::scalar::lemma_s_of_int_wf(0);
            crate::scalar::lemma_s_of_int_wf(1);
        }
        Rotor3::new(Scalar::one(), BiVec3::zero())
    }

    /// The rotor that rotates the direction of unit(`from`) onto
    /// unit(`to`), built as `unit(from) * unit(halfway)`.  A zero input or
    /// an antiparallel pair has no halfway direction and reports
    /// `DegenerateRotorInput`.
    pub fn from_to(from: Vec3, to: Vec3) -> (r: Result<Rotor3, GaError>)
        requires
            from.wf(),
            to.wf(),
        ensures
            r == spec_from_to(from, to),
            r matches Ok(c) ==> c.wf(),
    {
        let f = match from.normalized() {
            Ok(v) => v,
            Err(e) => {
                return Err(map_degenerate(e));
            },
        };
        let t = match to.normalized() {
            Ok(v) => v,
            Err(e) => {
                return Err(map_degenerate(e));
            },
        };
        let sum = f.add(t)?;
        let h = match sum.normalized() {
            Ok(v) => v,
            Err(e) => {
                return Err(map_degenerate(e));
            },
        };
        f.mul(h)
    }

    /// Rotor composition: the even-subalgebra geometric product.
    /// Associative but not commutative.
    pub fn mul(self, rhs: Rotor3) -> (r: Result<Rotor3, GaError>)
        requires
            self.wf(),
            rhs.wf(),
        ensures
            r == spec_rr_mul(self, rhs),
            r matches Ok(c) ==> c.wf(),
    {
        let m1 = self.e.mul(rhs.e)?;
        let m2 = self.e12.mul(rhs.e12)?;
        let m3 = self.e23.mul(rhs.e23)?;
        let m4 = self.e31.mul(rhs.e31)?;
        let ce = m1.sub(m2)?.sub(m3)?.sub(m4)?;
        let n1 = self.e.mul(rhs.e12)?;
        let n2 = self.e12.mul(rhs.e)?;
        let n3 = self.e23.mul(rhs.e31)?;
        let n4 = self.e31.mul(rhs.e23)?;
        let c12 = n1.add(n2)?.sub(n3)?.add(n4)?;
        let p1 = self.e.mul(rhs.e23)?;
        let p2 = self.e23.mul(rhs.e)?;
        let p3 = self.e12.mul(rhs.e31)?;
        let p4 = self.e31.mul(rhs.e12)?;
        let c23 = p1.add(p2)?.add(p3)?.sub(p4)?;
        let q1 = self.e.mul(rhs.e31)?;
        let q2 = self.e31.mul(rhs.e)?;
        let q3 = self.e12.mul(rhs.e23)?;
        let q4 = self.e23.mul(rhs.e12)?;
        let c31 = q1.add(q2)?.sub(q3)?.add(q4)?;
        Ok(Rotor3 { e: ce, e12: c12, e23: c23, e31: c31 })
    }

    /// The geometric product with a vector on the right: the first half of
    /// the rotation sandwich.
    pub fn mul_vec(self, rhs: Vec3) -> (r: Result<DualRotor3, GaError>)
        requires
            self.wf(),
            rhs.wf(),
        ensures
            r == spec_rv_mul(self, rhs),
            r matches Ok(c) ==> c.wf(),
    {
        let m1 = self.e.mul(rhs.e1)?;
        let m2 = self.e12.mul(rhs.e2)?;
        let m3 = self.e31.mul(rhs.e3)?;
        let c1 = m1.add(m2)?.sub(m3)?;
        let n1 = self.e.mul(rhs.e2)?;
        let n2 = self.e23.mul(rhs.e3)?;
        let n3 = self.e12.mul(rhs.e1)?;
        let c2 = n1.add(n2)?.sub(n3)?;
        let p1 = self.e.mul(rhs.e3)?;
        let p2 = self.e31.mul(rhs.e1)?;
        let p3 = self.e23.mul(rhs.e2)?;
        let c3 = p1.add(p2)?.sub(p3)?;
        let q1 = self.e12.mul(rhs.e3)?;
        let q2 = self.e23.mul(rhs.e1)?;
        let q3 = self.e31.mul(rhs.e2)?;
        let c123 = q1.add(q2)?.add(q3)?;
        Ok(DualRotor3 { e1: c1, e2: c2, e3: c3, e123: c123 })
    }
}

impl DualRotor3 {
    /// Every component is a canonical scalar.
    pub open spec fn wf(self) -> bool {
        self.e1.wf() && self.e2.wf() && self.e3.wf() && self.e123.wf()
    }

    /// The dual rotor with the given vector and trivector parts.
    pub fn new(vec3: Vec3, trivec3: TriVec3) -> (r: DualRotor3)
        ensures
            r == spec_dual_new(vec3, trivec3),
    {
        DualRotor3 { e1: vec3.e1, e2: vec3.e2, e3: vec3.e3, e123: trivec3.e123 }
    }

    /// The additive identity.
    pub fn zero() -> (r: DualRotor3)
        ensures
            r == spec_dzero(),
            r.wf(),
    {
        proof {
            crate::scalar::lemma_s_of_int_wf(0);
        }
        DualRotor3::new(Vec3::zero(), TriVec3::zero())
    }

    /// The geometric product with a vector on the right: the second half of
    /// the rotation sandwich, landing back in the even subalgebra.
    pub fn mul_vec(self, rhs: Vec3) -> (r: Result<Rotor3, GaError>)
        requires
            self.wf(),
            rhs.wf(),
        ensures
            r == spec_dv_mul(self, rhs),
            r matches Ok(c) ==> c.wf(),
    {
        let m1 = self.e1.mul(rhs.e1)?;
        let m2 = self.e2.mul(rhs.e2)?;
        let m3 = self.e3.mul(rhs.e3)?;
        let ce = m1.add(m2)?.add(m3)?;
        let n1 = self.e1.mul(rhs.e2)?;
        let n2 = self.e2.mul(rhs.e1)?;
        let n3 = self.e123.mul(rhs.e3)?;
        let c12 = n1.sub(n2)?.add(n3)?;
        let p1 = self.e2.mul(rhs.e3)?;
        let p2 = self.e3.mul(rhs.e2)?;
        let p3 = self.e123.mul(rhs.e1)?;
        let c23 = p1.sub(p2)?.add(p3)?;
        let q1 = self.e1.neg().mul(rhs.e3)?;
        let q2 = self.e3.mul(rhs.e1)?;
        let q3 = self.e123.mul(rhs.e2)?;
        let c31 = q1.add(q2)?.add(q3)?;
        Ok(Rotor3 { e: ce, e12: c12, e23: c23, e31: c31 })
    }
}

impl Default for Rotor3 {
    /// The zero rotor.
    fn default() -> (r: Rotor3)
        ensures
            r == spec_rzero(),
            r.wf(),
    {
        Rotor3::zero()
    }
}

impl Default for DualRotor3 {
    /// The zero dual rotor.
    fn default() -> (r: DualRotor3)
        ensures
            r == spec_dzero(),
            r.wf(),
    {
        DualRotor3::zero()
    }
}

} // verus!
