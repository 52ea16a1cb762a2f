//! Amplitude values held as the bit pattern of an IEEE-754 binary32 number.
use vstd::prelude::*;

verus! {

/// The smallest magnitude field that encodes an infinity; larger ones encode NaN.
pub const INFINITY_MAGNITUDE: u32 = 0x7f80_0000;

/// The sign bit of a binary32 pattern.
pub const SIGN_BIT: u32 = 0x8000_0000;

/// The magnitude field of a binary32 pattern: every bit but the sign.
pub open spec fn magnitude(bits: u32) -> int {
    (bits % SIGN_BIT) as int
}

/// Whether the pattern has its sign bit set.
pub open spec fn is_negative(bits: u32) -> bool {
    bits >= SIGN_BIT
}

/// Whether the pattern encodes NaN: all exponent bits set and a nonzero fraction.
pub open spec fn is_nan_bits(bits: u32) -> bool {
    magnitude(bits) > INFINITY_MAGNITUDE
}

/// Whether the pattern encodes a finite number (neither infinite nor NaN).
pub open spec fn is_finite_bits(bits: u32) -> bool {
    magnitude(bits) < INFINITY_MAGNITUDE
}

/// The position of a pattern in numeric order.
///
/// binary32 lays out the magnitude field so that a larger field is a larger absolute value,
/// so for two patterns that are not NaN, `rank(a) <= rank(b)` holds exactly when the number
/// that `a` encodes is at most the one that `b` encodes. Both zeros have rank 0, and the
/// infinities sit beyond every finite rank.
pub open spec fn rank(bits: u32) -> int {
    if is_negative(bits) {
        -magnitude(bits)
    } else {
        magnitude(bits)
    }
}

/// A linear amplitude (or any binary32 value), stored as its bit pattern.
#[derive(Clone, Copy, Debug, PartialEq, Eq, Structural)]
pub struct Level {
    pub bits: u32,
}

impl Level {
    /// The rank of this value in numeric order (see `rank`).
    pub open spec fn rank_spec(self) -> int {
        rank(self.bits)
    }

    /// Whether this value is NaN.
    pub open spec fn is_nan_spec(self) -> bool {
        is_nan_bits(self.bits)
    }

    /// Wraps a binary32 bit pattern, as `f32::to_bits` gives it.
    pub fn from_bits(bits: u32) -> (r: Level)
        ensures
            r.bits == bits,
    {
        Level { bits }
    }

    /// The binary32 bit pattern, as `f32::from_bits` takes it.
    pub fn to_bits(&self) -> (r: u32)
        ensures
            r == self.bits,
    {
        self.bits
    }

    /// Whether this value is NaN.
    pub fn is_nan(&self) -> (r: bool)
        ensures
            r == self.is_nan_spec(),
    {
        self.bits % SIGN_BIT > INFINITY_MAGNITUDE
    }

    /// Whether this value is a finite number.
    pub fn is_finite(&self) -> (r: bool)
        ensures
            r == is_finite_bits(self.bits),
    {
        self.bits % SIGN_BIT < INFINITY_MAGNITUDE
    }

    /// The rank of this value in numeric order.
    pub fn rank(&self) -> (r: i64)
        ensures
            r == self.rank_spec(),
    {
        let m: u32 = self.bits % SIGN_BIT;
        if self.bits >= SIGN_BIT {
            -(m as i64)
        } else {
            m as i64
        }
    }
}

} // verus!
