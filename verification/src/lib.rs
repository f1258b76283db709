//! An exact 3D geometric (Clifford) algebra over a Euclidean basis `e1,e2,e3`.
//!
//! The library defines the graded value types — `Vec3`, `BiVec3`, `TriVec3`,
//! `Rotor3`, `DualRotor3` and the full `MultiVec3` — together with the dot
//! product, the wedge (outer) product, the geometric product for each pair of
//! grades, inverses, reflection across an axis, and the fallible narrowing of
//! a general element back to a pure vector.
//!
//! Components are exact rational numbers (`Scalar`): a canonical fraction of
//! two 64-bit integers.  Every arithmetic step reduces its result to lowest
//! terms; a result whose reduced numerator or denominator does not fit in 64
//! bits is reported as `GaError::Overflow` rather than silently wrapped or
//! rounded.  All other operations are exact, so the algebraic identities of
//! the geometric product hold literally, not merely within rounding error;
//! the proofs in `laws` state the central ones.

use vstd::prelude::*;

pub mod gcd;
pub mod frac;
pub mod scalar;
pub mod vec3;
pub mod bivec3;
pub mod trivec3;
pub mod rotor;
pub mod multivec;
pub mod laws;

pub use scalar::Scalar;
pub use vec3::Vec3;
pub use bivec3::BiVec3;
pub use trivec3::TriVec3;
pub use rotor::DualRotor3;
pub use rotor::Rotor3;
pub use multivec::MultiVec3;

verus! {

/// The failures an algebra operation can report.
///
/// Every operation is otherwise exact, so these are the only outcomes besides
/// the mathematically correct value.
#[derive(Clone, Copy, Debug, PartialEq, Eq, Structural)]
pub enum GaError {
    /// A reduced numerator or denominator no longer fits in 64 bits.
    Overflow,
    /// Division by an exactly zero scalar, or the inverse of a zero vector.
    DivisionByZero,
    /// `Rotor3::from_to` was given vectors whose halfway direction is
    /// undefined (a zero input, or an antiparallel pair).
    DegenerateRotorInput,
    /// Narrowing to `Vec3` found a non-vector component beyond tolerance.
    NotAPureVector,
}

} // verus!
