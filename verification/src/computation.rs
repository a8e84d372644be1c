//! Descriptions of the computations run on orbitals.
use vstd::prelude::*;
use crate::orbital::hybrid::kind::Kind;
use crate::orbital::quantum_numbers::Qn;

verus! {

/// The parameters that select the orbital a computation is run on.
#[derive(Clone, Copy, Debug)]
pub enum ParametersEnum {
    /// An atomic orbital, by its quantum numbers.
    Atomic(Qn),
    /// A hybrid orbital, by its kind.
    Hybrid { kind: &'static Kind },
}

impl From<Qn> for ParametersEnum {
    fn from(qn: Qn) -> (r: Self) {
        ParametersEnum::Atomic(qn)
    }
}

impl vstd::std_specs::convert::FromSpecImpl<Qn> for ParametersEnum {
    open spec fn obeys_from_spec() -> bool {
        true
    }

    open spec fn from_spec(qn: Qn) -> Self {
        ParametersEnum::Atomic(qn)
    }
}

/// A computation of a point cloud of `count` points sampled from an orbital.
#[derive(Clone, Copy, PartialEq, Eq, Debug, Structural)]
pub struct PointCloudComputation {
    pub count: usize,
}

/// The radially symmetrical properties of an orbital that can be computed.
#[derive(Clone, Copy, PartialEq, Eq, Hash, Debug, Structural)]
pub enum RadialComputationKind {
    Wavefunction,
    ProbabilityDistribution,
    CumulativeDistribution,
}

} // verus!
