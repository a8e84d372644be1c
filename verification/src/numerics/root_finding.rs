//! Errors of root finding.
use vstd::prelude::*;
use vstd::string::*;

verus! {

/// The ways in which finding a root can fail.
#[derive(Debug, Clone, Copy, PartialEq, Eq, Structural)]
pub enum RootError {
    /// The iteration did not reach the desired tolerance within the step limit.
    FailedToConverge,
    /// The interval passed does not bracket a root.
    NotBracketed,
}

impl RootError {
    /// The error message.
    pub fn to_string(self) -> (r: String)
        ensures
            self == RootError::FailedToConverge ==> r@
                == "failed to converge to the desired tolerance within the step limit"@,
            self == RootError::NotBracketed ==> r@
                == "the passed interval does not bracket a root"@,
    {
        match self {
            Self::FailedToConverge => String::from_str(
                "failed to converge to the desired tolerance within the step limit",
            ),
            Self::NotBracketed => String::from_str("the passed interval does not bracket a root"),
        }
    }
}

} // verus!
