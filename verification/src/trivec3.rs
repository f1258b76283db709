//! Trivectors: oriented volume elements, multiples of the pseudoscalar
//! `e123`.

use vstd::prelude::*;
use crate::scalar::{Scalar, szero};

verus! {

/// An oriented volume with a single component on `e123`.
#[derive(Clone, Copy, Debug, PartialEq, Eq, Structural)]
pub struct TriVec3 {
    pub e123: Scalar,
}

/// The zero trivector.
pub open spec fn spec_tzero() -> TriVec3 {
    TriVec3 { e123: szero() }
}

impl TriVec3 {
    /// The component is a canonical scalar.
    pub open spec fn wf(self) -> bool {
        self.e123.wf()
    }

    /// The trivector with the given pseudoscalar component.
    pub fn new(e123: Scalar) -> (r: TriVec3)
        ensures
            r == (TriVec3 { e123 }),
    {
        TriVec3 { e123 }
    }

    /// The additive identity.
    pub fn zero() -> (r: TriVec3)
        ensures
            r == spec_tzero(),
            r.wf(),
    {
        proof {
            crate::scalar::lemma_s_of_int_wf(0);
        }
        TriVec3 { e123: Scalar::zero() }
    }
}

impl Default for TriVec3 {
    /// The zero trivector.
    fn default() -> (r: TriVec3)
        ensures
            r == spec_tzero(),
            r.wf(),
    {
        TriVec3::zero()
    }
}

} // verus!
