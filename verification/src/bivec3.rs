//! Bivectors: oriented plane elements over the basis `e12, e23, e31`.

use vstd::prelude::*;
use crate::scalar::{Scalar, szero, sneg};
use crate::frac::fclose;
use crate::scalar::EPS_DEN;

verus! {

/// An oriented plane segment with components on `e12`, `e23` and `e31`.
#[derive(Clone, Copy, Debug, PartialEq, Eq, Structural)]
pub struct BiVec3 {
    pub e12: Scalar,
    pub e23: Scalar,
    pub e31: Scalar,
}

/// The zero bivector.
pub open spec fn spec_bzero() -> BiVec3 {
    BiVec3 { e12: szero(), e23: szero(), e31: szero() }
}

/// Componentwise negation.
pub open spec fn spec_bneg(b: BiVec3) -> BiVec3 {
    BiVec3 { e12: sneg(b.e12), e23: sneg(b.e23), e31: sneg(b.e31) }
}

impl BiVec3 {
    /// Every component is a canonical scalar.
    pub open spec fn wf(self) -> bool {
        self.e12.wf() && self.e23.wf() && self.e31.wf()
    }

    /// The bivector with the given components.
    pub fn new(e12: Scalar, e23: Scalar, e31: Scalar) -> (r: BiVec3)
        ensures
            r == (BiVec3 { e12, e23, e31 }),
    {
        BiVec3 { e12, e23, e31 }
    }

    /// The additive identity.
    pub fn zero() -> (r: BiVec3)
        ensures
            r == spec_bzero(),
            r.wf(),
    {
        proof {
            crate::scalar::lemma_s_of_int_wf(0);
        }
        BiVec3 { e12: Scalar::zero(), e23: Scalar::zero(), e31: Scalar::zero() }
    }

    /// Negation of each component; exact and always canonical.
    pub fn neg(self) -> (r: BiVec3)
        requires
            self.wf(),
        ensures
            r == spec_bneg(self),
            r.wf(),
    {
        BiVec3 { e12: self.e12.neg(), e23: self.e23.neg(), e31: self.e31.neg() }
    }

    /// Componentwise comparison within the fixed tolerance `1 / EPS_DEN`.
    pub fn is_close(self, rhs: BiVec3) -> (r: bool)
        requires
            self.wf(),
            rhs.wf(),
        ensures
            r == (fclose(self.e12.view(), rhs.e12.view(), EPS_DEN as int) && fclose(
                self.e23.view(),
                rhs.e23.view(),
                EPS_DEN as int,
            ) && fclose(self.e31.view(), rhs.e31.view(), EPS_DEN as int)),
    {
        self.e12.is_close(rhs.e12) && self.e23.is_close(rhs.e23) && self.e31.is_close(rhs.e31)
    }
}

impl Default for BiVec3 {
    /// The zero bivector.
    fn default() -> (r: BiVec3)
        ensures
            r == spec_bzero(),
            r.wf(),
    {
        BiVec3::zero()
    }
}

} // verus!
