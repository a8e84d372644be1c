//! Names and node counts of the real hydrogenic orbitals.
use vstd::prelude::*;
use vstd::string::*;
use crate::orbital::quantum_numbers::{Lm, Qn, abs, valid_qn};
use crate::orbital::atomic::{basic_name, basic_name_text, subshell_name, subshell_letter};
use crate::orbital::wavefunctions::{RealSphericalHarmonic, real_harmonic_expression};
use crate::utils::{decimal, push_decimal};

verus! {

/// The conventional name of the real orbital with quantum numbers `v`: `n`, the subshell
/// letter and the Cartesian expression in a subscript (ex. `4d<sub>z²</sub>`) when both are
/// known, and `ψ<sub>nlm</sub>` otherwise.
pub open spec fn real_name_text(v: (u32, u32, i32)) -> Seq<char> {
    match (subshell_letter(v.1), real_harmonic_expression(v.1, v.2)) {
        (Some(subshell), Some(expression)) => decimal(v.0 as nat) + subshell + "<sub>"@
            + expression + "</sub>"@,
        _ => basic_name_text(v),
    }
}

/// Try to give the orbital's conventional name (ex. `4d<sub>z²</sub>`) before falling back to
/// giving the quantum numbers only (ex. `ψ<sub>420</sub>`).
pub fn name_qn(qn: Qn) -> (r: String)
    ensures
        r@ == real_name_text(qn@),
{
    let lm = Lm::from(qn);
    proof {
        lemma_lm_of(qn, lm);
    }
    if let (Some(subshell), Some(linear_combination)) = (
        subshell_name(qn.l()),
        RealSphericalHarmonic::expression(&lm),
    ) {
        let mut s = String::new();
        push_decimal(&mut s, qn.n() as u64);
        s.append(subshell);
        s.append("<sub>");
        s.append(linear_combination);
        s.append("</sub>");
        s
    } else {
        basic_name(qn)
    }
}

proof fn lemma_lm_of(qn: Qn, lm: Lm)
    requires
        lm == <Lm as vstd::std_specs::convert::FromSpec<Qn>>::from_spec(qn),
    ensures
        lm@ == (qn@.1, qn@.2),
{
    crate::orbital::quantum_numbers::lemma_projections(qn);
}

/// Give the number of radial nodes in an orbital, `n - l - 1`.
pub fn num_radial_nodes(qn: Qn) -> (r: u32)
    ensures
        r == qn@.0 - qn@.1 - 1,
{
    qn.n() - qn.l() - 1
}

/// Give the number of angular nodes in an orbital, `l`.
pub fn num_angular_nodes(qn: Qn) -> (r: u32)
    ensures
        r == qn@.1,
{
    qn.l()
}

/// Give the number of conical angular nodes in an orbital, `l - |m|`.
pub fn num_conical_nodes(lm: Lm) -> (r: u32)
    ensures
        r == lm@.0 - abs(lm@.1 as int),
{
    let l = lm.l();
    let m = lm.m();
    let m_abs: u32 = if m < 0 {
        (-(m as i64)) as u32
    } else {
        m as u32
    };
    l - m_abs
}

/// Give the number of planar angular nodes in an orbital, `|m|`.
pub fn num_planar_nodes(lm: Lm) -> (r: u32)
    ensures
        r == abs(lm@.1 as int),
{
    let m = lm.m();
    if m < 0 {
        (-(m as i64)) as u32
    } else {
        m as u32
    }
}

/// The angular nodes of an orbital split into its conical and planar nodes, and together with
/// the radial nodes they number `n - 1`.
pub proof fn lemma_node_counts(qn: Qn)
    requires
        valid_qn(qn@),
    ensures
        (qn@.1 - abs(qn@.2 as int)) + abs(qn@.2 as int) == qn@.1,
        (qn@.0 - qn@.1 - 1) + qn@.1 == qn@.0 - 1,
        qn@.0 - qn@.1 - 1 >= 0,
        qn@.1 - abs(qn@.2 as int) >= 0,
{
}

} // verus!
