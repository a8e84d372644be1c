//! Double factorials of unsigned machine integers.
use vstd::prelude::*;
use crate::numerics::special::factorial::{double_factorial_of, double_factorial_u64};

verus! {

/// Compute the [double factorial](https://en.wikipedia.org/wiki/Double_factorial).
pub trait DoubleFactorial: Sized {
    /// The integer value of `self`.
    spec fn int_value(self) -> int;

    /// The largest value of the type.
    spec fn type_max() -> int;

    /// `x!!`
    fn double_factorial(self) -> (r: Self)
        requires
            double_factorial_of(self.int_value() as nat) <= Self::type_max(),
        ensures
            r.int_value() == double_factorial_of(self.int_value() as nat),
    ;
}

impl DoubleFactorial for u8 {
    open spec fn int_value(self) -> int {
        self as int
    }

    open spec fn type_max() -> int {
        u8::MAX as int
    }

    fn double_factorial(self) -> (r: Self) {
        double_factorial_u64(self as u64) as u8
    }
}

impl DoubleFactorial for u16 {
    open spec fn int_value(self) -> int {
        self as int
    }

    open spec fn type_max() -> int {
        u16::MAX as int
    }

    fn double_factorial(self) -> (r: Self) {
        double_factorial_u64(self as u64) as u16
    }
}

impl DoubleFactorial for u32 {
    open spec fn int_value(self) -> int {
        self as int
    }

    open spec fn type_max() -> int {
        u32::MAX as int
    }

    fn double_factorial(self) -> (r: Self) {
        double_factorial_u64(self as u64) as u32
    }
}

impl DoubleFactorial for u64 {
    open spec fn int_value(self) -> int {
        self as int
    }

    open spec fn type_max() -> int {
        u64::MAX as int
    }

    fn double_factorial(self) -> (r: Self) {
        double_factorial_u64(self)
    }
}

impl DoubleFactorial for usize {
    open spec fn int_value(self) -> int {
        self as int
    }

    open spec fn type_max() -> int {
        usize::MAX as int
    }

    fn double_factorial(self) -> (r: Self) {
        double_factorial_u64(self as u64) as usize
    }
}

} // verus!
