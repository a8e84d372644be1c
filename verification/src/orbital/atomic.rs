//! Names and node counts of the real and complex atomic orbitals.
use vstd::prelude::*;
use vstd::string::*;
use crate::orbital::quantum_numbers::{Qn, abs, valid_qn};
use crate::utils::{decimal, push_decimal, push_signed_decimal, signed_decimal};

pub mod complex_orbital;
pub mod real_orbital;

verus! {

/// The conventional subshell letter of `l` (s, p, d, f, g, h, i, k), for `l <= 7`.
pub open spec fn subshell_letter(l: u32) -> Option<Seq<char>> {
    if l == 0 {
        Some("s"@)
    } else if l == 1 {
        Some("p"@)
    } else if l == 2 {
        Some("d"@)
    } else if l == 3 {
        Some("f"@)
    } else if l == 4 {
        Some("g"@)
    } else if l == 5 {
        Some("h"@)
    } else if l == 6 {
        Some("i"@)
    } else if l == 7 {
        Some("k"@)
    } else {
        None
    }
}

/// The name `ψ<sub>nlm</sub>` of the orbital with quantum numbers `v`.
pub open spec fn basic_name_text(v: (u32, u32, i32)) -> Seq<char> {
    "ψ<sub>"@ + decimal(v.0 as nat) + decimal(v.1 as nat) + signed_decimal(v.2 as int)
        + "</sub>"@
}

/// Get the conventional subshell name (s, p, d, f, etc.) for common (i.e., small) values of `l`;
/// will otherwise return `None`.
pub fn subshell_name(l: u32) -> (r: Option<&'static str>)
    ensures
        r is Some <==> l <= 7,
        r matches Some(s) ==> subshell_letter(l) == Some(s@),
{
    match l {
        0 => Some("s"),
        1 => Some("p"),
        2 => Some("d"),
        3 => Some("f"),
        4 => Some("g"),
        5 => Some("h"),
        6 => Some("i"),
        7 => Some("k"),  // Note that "j" is skipped!
        _ => None,
    }
}

/// The name of an orbital from its quantum numbers alone, `ψ<sub>nlm</sub>`.
pub fn basic_name(qn: Qn) -> (r: String)
    ensures
        r@ == basic_name_text(qn@),
{
    let mut s = String::from_str("ψ<sub>");
    push_decimal(&mut s, qn.n() as u64);
    push_decimal(&mut s, qn.l() as u64);
    push_signed_decimal(&mut s, qn.m() as i64);
    s.append("</sub>");
    s
}

/// A radially symmetrical property associated with an orbital.
#[derive(Clone, Copy, PartialEq, Eq, Debug, Structural)]
pub enum RadialPlot {
    Wavefunction,
    ProbabilityDistribution,
}

} // verus!
