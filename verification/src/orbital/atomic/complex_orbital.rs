//! Names of the complex hydrogenic orbitals.
use vstd::prelude::*;
use crate::orbital::quantum_numbers::Qn;
use crate::orbital::atomic::{basic_name, basic_name_text};

verus! {

/// The name of the complex orbital with quantum numbers `qn` (ex. `ψ<sub>420</sub>`).
pub fn name_qn(qn: Qn) -> (r: String)
    ensures
        r@ == basic_name_text(qn@),
{
    basic_name(qn)
}

} // verus!
