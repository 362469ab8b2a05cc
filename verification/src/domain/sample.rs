//! Samples: 64-bit binary floating-point numbers, held by their bit pattern.

use vstd::prelude::*;

verus! {

/// The bit of the sign.
pub const SIGN_BIT: u64 = 0x8000_0000_0000_0000;

/// The magnitude of the infinities: every larger magnitude is no number.
pub const INFINITY_MAGNITUDE: u64 = 0x7FF0_0000_0000_0000;

/// The magnitude of the largest finite number.
pub const LARGEST_MAGNITUDE: u64 = 0x7FEF_FFFF_FFFF_FFFF;

/// One sample of a series: a 64-bit binary floating-point number, held as
/// its bit pattern. Samples are ordered as the numbers are: the two zeros are
/// equal, and what is no number compares with nothing.
#[derive(Debug, Clone, Copy, PartialEq, Eq, Structural)]
pub struct Sample {
    /// The bits: the sign, eleven bits of exponent, fifty-two of fraction.
    pub bits: u64,
}

impl Sample {
    /// The bits without the sign.
    pub open spec fn magnitude(self) -> int {
        if self.bits >= SIGN_BIT {
            self.bits - SIGN_BIT
        } else {
            self.bits as int
        }
    }

    /// Whether the bits stand for no number.
    pub open spec fn is_nan(self) -> bool {
        self.magnitude() > INFINITY_MAGNITUDE
    }

    /// Whether the sample is a number and no infinity.
    pub open spec fn is_finite(self) -> bool {
        self.magnitude() <= LARGEST_MAGNITUDE
    }

    /// The place of the sample in the order of the numbers: among samples
    /// that are numbers, a larger number has a larger rank, and only the two
    /// zeros share one.
    pub open spec fn rank(self) -> int {
        if self.bits >= SIGN_BIT {
            -self.magnitude()
        } else {
            self.magnitude()
        }
    }

    /// `self > other` as numbers.
    pub open spec fn above(self, other: Sample) -> bool {
        !self.is_nan() && !other.is_nan() && self.rank() > other.rank()
    }

    /// `self < other` as numbers.
    pub open spec fn below(self, other: Sample) -> bool {
        other.above(self)
    }

    /// `self == other` as numbers.
    pub open spec fn same(self, other: Sample) -> bool {
        !self.is_nan() && !other.is_nan() && self.rank() == other.rank()
    }

    /// The sample with the given bits.
    pub fn from_bits(bits: u64) -> (sample: Sample)
        ensures
            sample.bits == bits,
    {
        Sample { bits }
    }

    /// The bits of the sample.
    pub fn to_bits(&self) -> (bits: u64)
        ensures
            bits == self.bits,
    {
        self.bits
    }

    /// The largest finite number with a minus sign: below it lies only
    /// minus infinity.
    pub fn lowest() -> (sample: Sample)
        ensures
            sample == Sample::spec_lowest(),
    {
        Sample { bits: 0xFFEF_FFFF_FFFF_FFFF }
    }

    /// The largest finite number: above it lies only infinity.
    pub fn highest() -> (sample: Sample)
        ensures
            sample == Sample::spec_highest(),
    {
        Sample { bits: 0x7FEF_FFFF_FFFF_FFFF }
    }

    /// The value of [`Sample::lowest`].
    pub open spec fn spec_lowest() -> Sample {
        Sample { bits: 0xFFEF_FFFF_FFFF_FFFF }
    }

    /// The value of [`Sample::highest`].
    pub open spec fn spec_highest() -> Sample {
        Sample { bits: 0x7FEF_FFFF_FFFF_FFFF }
    }

    fn exec_magnitude(&self) -> (m: u64)
        ensures
            m == self.magnitude(),
    {
        if self.bits >= SIGN_BIT {
            self.bits - SIGN_BIT
        } else {
            self.bits
        }
    }

    /// Whether the sample is no number.
    pub fn is_not_a_number(&self) -> (b: bool)
        ensures
            b == self.is_nan(),
    {
        self.exec_magnitude() > INFINITY_MAGNITUDE
    }

    /// Whether `self > other` as numbers.
    pub fn greater_than(&self, other: &Sample) -> (b: bool)
        ensures
            b == self.above(*other),
    {
        if self.is_not_a_number() || other.is_not_a_number() {
            return false;
        }
        let a: u64 = self.exec_magnitude();
        let b: u64 = other.exec_magnitude();
        let a_minus: bool = self.bits >= SIGN_BIT;
        let b_minus: bool = other.bits >= SIGN_BIT;
        if a_minus {
            if b_minus {
                a < b
            } else {
                false
            }
        } else {
            if b_minus {
                a > 0 || b > 0
            } else {
                a > b
            }
        }
    }

    /// Whether `self < other` as numbers.
    pub fn less_than(&self, other: &Sample) -> (b: bool)
        ensures
            b == self.below(*other),
    {
        other.greater_than(self)
    }

    /// Whether `self == other` as numbers.
    pub fn equal_to(&self, other: &Sample) -> (b: bool)
        ensures
            b == self.same(*other),
    {
        if self.is_not_a_number() || other.is_not_a_number() {
            return false;
        }
        let a: u64 = self.exec_magnitude();
        let b: u64 = other.exec_magnitude();
        if a == 0 && b == 0 {
            true
        } else {
            self.bits == other.bits
        }
    }

    /// Among numbers exactly one of `<`, `==` and `>` holds, and `==` holds
    /// of equal bits and of the two zeros only.
    pub proof fn order_is_total(self, other: Sample)
        requires
            !self.is_nan(),
            !other.is_nan(),
        ensures
            self.above(other) || self.same(other) || self.below(other),
            !(self.above(other) && self.same(other)),
            !(self.above(other) && self.below(other)),
            !(self.below(other) && self.same(other)),
            self.same(other) <==> (self.bits == other.bits || (self.magnitude() == 0
                && other.magnitude() == 0)),
    {
    }

    /// What is no number is neither below, nor above, nor equal to anything.
    pub proof fn nan_compares_with_nothing(self, other: Sample)
        requires
            self.is_nan() || other.is_nan(),
        ensures
            !self.above(other),
            !self.below(other),
            !self.same(other),
    {
    }
}

} // verus!
