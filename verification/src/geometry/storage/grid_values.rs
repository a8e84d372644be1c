//! Coordinate planes of three-dimensional grids.
use vstd::prelude::*;
use crate::geometry::{axis_name, plane_axes, ordered_triple_text};

pub use crate::geometry::InvalidGridValuesError;

verus! {

/// Type representing a coordinate plane in three dimensions.
#[allow(clippy::upper_case_acronyms)]
#[derive(Clone, Copy, PartialEq, Eq, Debug, Structural)]
pub enum CoordinatePlane3 {
    XY,
    YZ,
    ZX,
}

impl CoordinatePlane3 {
    /// The index of the plane: 0 for `XY`, 1 for `YZ`, 2 for `ZX`.
    pub open spec fn index(self) -> nat {
        match self {
            CoordinatePlane3::XY => 0,
            CoordinatePlane3::YZ => 1,
            CoordinatePlane3::ZX => 2,
        }
    }

    /// Get the names of the two coordinate axes defining the plane, in order.
    pub fn axes_names(self) -> (r: (&'static str, &'static str))
        ensures
            r.0@ == axis_name(plane_axes(self.index()).0),
            r.1@ == axis_name(plane_axes(self.index()).1),
    {
        match self {
            Self::XY => ("x", "y"),
            Self::YZ => ("y", "z"),
            Self::ZX => ("z", "x"),
        }
    }

    /// Give an ordered triple describing which coordinate axis takes on the value of zero.
    /// (Ex. `(x, y, 0)`.)
    pub fn ordered_triple_form(self) -> (r: &'static str)
        ensures
            r@ == ordered_triple_text(self.index()),
    {
        match self {
            Self::XY => "(x, y, 0)",
            Self::YZ => "(0, y, z)",
            Self::ZX => "(x, 0, z)",
        }
    }
}

} // verus!
