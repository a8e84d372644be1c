//! Atomic and hybrid orbitals: quantum numbers, orbital names and node counts.
use vstd::prelude::*;

pub mod atomic;
pub mod gaussian_mo;
pub mod hybrid;
pub mod molecular;
pub mod quantum_numbers;
pub mod wavefunctions;

pub use self::quantum_numbers::Qn;

verus! {

/// Type that evaluates the probability density of an orbital.
pub struct ProbabilityDensity<O>(O);

impl<O> ProbabilityDensity<O> {
    /// Wrap the orbital `inner`.
    pub fn new(inner: O) -> (r: Self)
        ensures
            r.inner() == inner,
    {
        Self(inner)
    }

    /// The wrapped orbital.
    pub closed spec fn inner(self) -> O {
        self.0
    }
}

} // verus!
