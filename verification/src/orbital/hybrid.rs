//! Hybrid orbitals: the validation and naming of kinds of hybridization.
use vstd::prelude::*;

pub mod kind;

pub use self::kind::Kind;

verus! {

/// Hybridized orbitals, linear combinations of atomic orbitals of one kind; their evaluation
/// is floating-point arithmetic, done outside this library.
pub struct Hybridized;

} // verus!
