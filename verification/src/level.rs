//! Noise levels and cut-offs as whole numbers.
//!
//! A level is a single-precision number in the IEEE 754 binary32 format, held
//! by its thirty-two bits: one sign bit, then eight bits of exponent and
//! twenty-three of fraction, which together are its magnitude. Read as whole
//! numbers, the magnitudes of two numbers compare as the numbers' absolute
//! values do. That gives every number a rank, and the order of the ranks is
//! the order of the numbers.

use vstd::prelude::*;

verus! {

/// The sign bit of a level.
pub const SIGN_BIT: u32 = 0x8000_0000;

/// The magnitude of infinity. Every larger magnitude is not a number.
pub const INFINITY_MAGNITUDE: u32 = 0x7F80_0000;

/// A noise level or a cut-off, held by the bits of its binary32 form.
#[derive(Clone, Copy, Debug, PartialEq, Eq, Structural)]
pub struct Level {
    pub bits: u32,
}

impl Level {
    /// The bits of the level without its sign.
    pub open spec fn magnitude(self) -> int {
        self.bits as int % 0x8000_0000
    }

    /// Whether the sign bit is set.
    pub open spec fn is_negative(self) -> bool {
        self.bits >= 0x8000_0000
    }

    /// Whether the bits stand for no number at all.
    pub open spec fn spec_is_nan(self) -> bool {
        self.magnitude() > 0x7F80_0000
    }

    /// The place of the level among all levels: of two numbers, the larger
    /// has the larger rank, and the two zeros share the rank zero.
    pub open spec fn rank(self) -> int {
        if self.is_negative() {
            -self.magnitude()
        } else {
            self.magnitude()
        }
    }

    /// Whether the level lies strictly above `cut_off`. What is not a number
    /// lies above nothing, and nothing lies above it.
    pub open spec fn spec_exceeds(self, cut_off: Level) -> bool {
        &&& !self.spec_is_nan()
        &&& !cut_off.spec_is_nan()
        &&& self.rank() > cut_off.rank()
    }

    /// Whether both are numbers and the level is at most `other`.
    pub open spec fn spec_at_most(self, other: Level) -> bool {
        &&& !self.spec_is_nan()
        &&& !other.spec_is_nan()
        &&& self.rank() <= other.rank()
    }

    /// The level with the given bits.
    pub fn from_bits(bits: u32) -> (level: Level)
        ensures
            level.bits == bits,
    {
        Level { bits }
    }

    /// The bits of the level.
    pub fn to_bits(self) -> (bits: u32)
        ensures
            bits == self.bits,
    {
        self.bits
    }

    /// Whether the bits stand for no number at all.
    pub fn is_nan(self) -> (nan: bool)
        ensures
            nan == self.spec_is_nan(),
    {
        self.bits % SIGN_BIT > INFINITY_MAGNITUDE
    }

    /// The rank of the level.
    pub fn ordinal(self) -> (rank: i64)
        ensures
            rank == self.rank(),
    {
        let magnitude: i64 = (self.bits % SIGN_BIT) as i64;
        if self.bits >= SIGN_BIT {
            -magnitude
        } else {
            magnitude
        }
    }

    /// Whether the level lies strictly above `cut_off`.
    pub fn exceeds(self, cut_off: Level) -> (above: bool)
        ensures
            above == self.spec_exceeds(cut_off),
    {
        if self.is_nan() || cut_off.is_nan() {
            false
        } else {
            self.ordinal() > cut_off.ordinal()
        }
    }
}

} // verus!
