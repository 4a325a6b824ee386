//! Exact representation of a physical reading.
//!
//! A sensor reading is a rational number of physical units (degrees Celsius
//! or percent relative humidity): the manufacturer transfer functions and
//! the kernel's millidegree format are all ratios of integers. Holding the
//! numerator and denominator exactly keeps every contract in integer
//! arithmetic; whoever displays or transmits a reading divides at the edge.

use vstd::prelude::*;

verus! {

/// A physical quantity `num / den`, held exactly.
#[derive(Clone, Copy, Debug, PartialEq, Eq, Structural)]
pub struct Measurement {
    /// Numerator, in units of `1 / den`.
    pub num: i64,
    /// Positive denominator.
    pub den: u64,
}

impl Measurement {
    /// A measurement means a number only when its denominator is positive.
    pub open spec fn wf(self) -> bool {
        self.den > 0
    }

    /// `self` names a strictly smaller quantity than `other`.
    pub open spec fn lt(self, other: Measurement) -> bool {
        self.num * other.den < other.num * self.den
    }

    /// `self` equals the integer `n`.
    pub open spec fn is_integer(self, n: int) -> bool {
        self.num == n * self.den
    }
}

} // verus!
