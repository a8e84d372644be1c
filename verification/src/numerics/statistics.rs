//! Wrappers interpreting functions as probability densities.
use std::marker::PhantomData;
use vstd::prelude::*;

verus! {

/// Wrapper type for evaluating the probability density function of a function on `N`
/// dimensions whose values are interpreted as a distribution.
pub struct Pdf<const N: usize, P, D> {
    inner: D,
    _phantom: PhantomData<P>,
}

impl<const N: usize, P, D> Pdf<N, P, D> {
    /// Wrap `inner`.
    pub fn new(inner: D) -> (r: Self)
        ensures
            r.inner() == inner,
    {
        Self { inner, _phantom: PhantomData }
    }

    /// The wrapped function.
    pub closed spec fn inner(self) -> D {
        self.inner
    }
}

/// Type that evaluates the probability density of a distribution.
pub struct ProbabilityDensityEvaluator<D>(D);

impl<D> ProbabilityDensityEvaluator<D> {
    /// Wrap `inner`.
    pub fn new(inner: D) -> (r: Self)
        ensures
            r.inner() == inner,
    {
        Self(inner)
    }

    /// The wrapped distribution.
    pub closed spec fn inner(self) -> D {
        self.0
    }
}

} // verus!
