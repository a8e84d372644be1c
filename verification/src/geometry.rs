//! Coordinate planes and the shape errors of grids of values.
use vstd::prelude::*;
use vstd::string::*;

pub mod storage;

verus! {

/// Type representing a coordinate plane.
#[allow(clippy::upper_case_acronyms)]
#[derive(Clone, Copy, PartialEq, Eq, Debug, Structural)]
pub enum Plane {
    XY,
    YZ,
    ZX,
}

/// The names of the two axes spanning a plane, in order, given by the indices (0 for `x`, 1
/// for `y`, 2 for `z`) of its first and second axis.
pub open spec fn axis_name(i: nat) -> Seq<char> {
    if i == 0 {
        "x"@
    } else if i == 1 {
        "y"@
    } else {
        "z"@
    }
}

/// The indices of the two axes spanning the plane `XY`, `YZ` or `ZX` (given by 0, 1, 2), in
/// order: the basis `(e_a, e_b)` is oriented so that `e_a × e_b` is the remaining axis.
pub open spec fn plane_axes(which: nat) -> (nat, nat) {
    if which == 0 {
        (0, 1)
    } else if which == 1 {
        (1, 2)
    } else {
        (2, 0)
    }
}

/// The ordered triple describing a plane, with `0` at the coordinate that vanishes on it.
pub open spec fn ordered_triple_text(which: nat) -> Seq<char> {
    if which == 0 {
        "(x, y, 0)"@
    } else if which == 1 {
        "(0, y, z)"@
    } else {
        "(x, 0, z)"@
    }
}

/// The name of the plane (ex. `XY`).
pub open spec fn plane_name(which: nat) -> Seq<char> {
    if which == 0 {
        "XY"@
    } else if which == 1 {
        "YZ"@
    } else {
        "ZX"@
    }
}

impl Plane {
    /// The index of the plane: 0 for `XY`, 1 for `YZ`, 2 for `ZX`.
    pub open spec fn index(self) -> nat {
        match self {
            Plane::XY => 0,
            Plane::YZ => 1,
            Plane::ZX => 2,
        }
    }

    /// Get the names of the two coordinate axes defining the plane, in order.
    pub fn axes_names(self) -> (r: (&'static str, &'static str))
        ensures
            r.0@ == axis_name(plane_axes(self.index()).0),
            r.1@ == axis_name(plane_axes(self.index()).1),
    {
        match self {
            Self::XY => ("x", "y"),
            Self::YZ => ("y", "z"),
            Self::ZX => ("z", "x"),
        }
    }

    /// Give an ordered triple describing which coordinate axis takes on the value of zero.
    /// (Ex. `(x, y, 0)`.)
    pub fn ordered_triple(self) -> (r: &'static str)
        ensures
            r@ == ordered_triple_text(self.index()),
    {
        match self {
            Self::XY => "(x, y, 0)",
            Self::YZ => "(0, y, z)",
            Self::ZX => "(x, 0, z)",
        }
    }

    /// The name of the plane (ex. `XY`).
    pub fn to_string(self) -> (r: String)
        ensures
            r@ == plane_name(self.index()),
    {
        match self {
            Self::XY => String::from_str("XY"),
            Self::YZ => String::from_str("YZ"),
            Self::ZX => String::from_str("ZX"),
        }
    }
}

/// Type representing a coordinate plane.
#[allow(clippy::upper_case_acronyms)]
#[derive(Clone, Copy, PartialEq, Eq, Debug, Structural)]
pub enum CoordinatePlane {
    XY,
    YZ,
    ZX,
}

impl CoordinatePlane {
    /// The index of the plane: 0 for `XY`, 1 for `YZ`, 2 for `ZX`.
    pub open spec fn index(self) -> nat {
        match self {
            CoordinatePlane::XY => 0,
            CoordinatePlane::YZ => 1,
            CoordinatePlane::ZX => 2,
        }
    }

    /// Get the names of the two coordinate axes defining the plane, in order.
    pub fn axes_names(self) -> (r: (&'static str, &'static str))
        ensures
            r.0@ == axis_name(plane_axes(self.index()).0),
            r.1@ == axis_name(plane_axes(self.index()).1),
    {
        match self {
            Self::XY => ("x", "y"),
            Self::YZ => ("y", "z"),
            Self::ZX => ("z", "x"),
        }
    }

    /// Give an ordered triple describing which coordinate axis takes on the value of zero.
    /// (Ex. `(x, y, 0)`.)
    pub fn ordered_triple_form(self) -> (r: &'static str)
        ensures
            r@ == ordered_triple_text(self.index()),
    {
        match self {
            Self::XY => "(x, y, 0)",
            Self::YZ => "(0, y, z)",
            Self::ZX => "(x, 0, z)",
        }
    }

    /// The name of the plane (ex. `XY`).
    pub fn to_string(self) -> (r: String)
        ensures
            r@ == plane_name(self.index()),
    {
        match self {
            Self::XY => String::from_str("XY"),
            Self::YZ => String::from_str("YZ"),
            Self::ZX => String::from_str("ZX"),
        }
    }
}

/// Error type describing invalid grid geometries.
#[derive(PartialEq, Eq, Debug, Clone, Copy, Structural)]
pub enum InvalidGridValuesError {
    /// Incorrect number of row coordinates.
    Row,
    /// Incorrect number of column coordinates.
    Column,
}

impl InvalidGridValuesError {
    /// The error message.
    pub fn to_string(self) -> (r: String)
        ensures
            self == InvalidGridValuesError::Row ==> r@
                == "number of row coordinates does not match number of value rows"@,
            self == InvalidGridValuesError::Column ==> r@
                == "number of column coordinates does not match length of value row"@,
    {
        match self {
            Self::Row => String::from_str(
                "number of row coordinates does not match number of value rows",
            ),
            Self::Column => String::from_str(
                "number of column coordinates does not match length of value row",
            ),
        }
    }
}

/// The shape check of a grid of values: the number of rows must equal the number of row
/// coordinates, then every row must hold one value per column coordinate. `row_lengths`
/// gives the length of each row, in order.
pub fn check_grid_shape(num_cols: usize, num_rows: usize, row_lengths: &Vec<usize>) -> (r: Result<
    (),
    InvalidGridValuesError,
>)
    ensures
        num_rows != row_lengths@.len() ==> r == Err::<(), InvalidGridValuesError>(
            InvalidGridValuesError::Row,
        ),
        num_rows == row_lengths@.len() && (exists|i: int|
            0 <= i < row_lengths@.len() && row_lengths@[i] != num_cols) ==> r == Err::<
            (),
            InvalidGridValuesError,
        >(InvalidGridValuesError::Column),
        r is Ok <==> (num_rows == row_lengths@.len() && forall|i: int|
            0 <= i < row_lengths@.len() ==> row_lengths@[i] == num_cols),
{
    if num_rows != row_lengths.len() {
        return Err(InvalidGridValuesError::Row);
    }
    let mut i: usize = 0;
    while i < row_lengths.len()
        invariant
            i <= row_lengths@.len(),
            num_rows == row_lengths@.len(),
            forall|j: int| 0 <= j < i ==> row_lengths@[j] == num_cols,
        decreases row_lengths@.len() - i,
    {
        if row_lengths[i] != num_cols {
            return Err(InvalidGridValuesError::Column);
        }
        i = i + 1;
    }
    Ok(())
}

} // verus!
