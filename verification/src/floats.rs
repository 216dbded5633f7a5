//! Single-precision numbers, held by their bit patterns.
//!
//! The recorder never computes with the depth ranges, clear values and biases
//! that pass through it. It compares some of them, and that comparison is the
//! one of IEEE 754: zeros are equal whatever their sign, and a NaN is equal to
//! nothing.
use vstd::prelude::*;

verus! {

/// The bit pattern of a single-precision number.
#[derive(Clone, Copy, Debug, PartialEq, Eq, Structural)]
pub struct FloatBits {
    pub bits: u32,
}

/// The bits of a number but for its sign.
pub const MAGNITUDE_MASK: u32 = 0x7FFF_FFFF;

/// The magnitude of infinity: whatever exceeds it is a NaN.
pub const INFINITY_MAGNITUDE: u32 = 0x7F80_0000;

/// The bit pattern of 0.
pub const ZERO_BITS: u32 = 0;

/// The bit pattern of 1.
pub const ONE_BITS: u32 = 0x3F80_0000;

impl FloatBits {
    /// Whether this is the pattern of a NaN.
    pub open spec fn is_nan(self) -> bool {
        self.bits & MAGNITUDE_MASK > INFINITY_MAGNITUDE
    }

    /// Whether this is the pattern of a zero, of either sign.
    pub open spec fn is_zero(self) -> bool {
        self.bits & MAGNITUDE_MASK == 0
    }

    /// Whether the two numbers are equal.
    pub open spec fn same_number(self, other: FloatBits) -> bool {
        &&& !self.is_nan()
        &&& !other.is_nan()
        &&& self.bits == other.bits || (self.is_zero() && other.is_zero())
    }

    /// Whether the two numbers are equal.
    pub fn equals(self, other: FloatBits) -> (yes: bool)
        ensures
            yes == self.same_number(other),
    {
        let left: u32 = self.bits & MAGNITUDE_MASK;
        let right: u32 = other.bits & MAGNITUDE_MASK;
        left <= INFINITY_MAGNITUDE && right <= INFINITY_MAGNITUDE && (self.bits == other.bits || (
        left == 0 && right == 0))
    }
}

} // verus!
