//! Signal levels: single-precision numbers, held and compared by their bits.

use vstd::prelude::*;

verus! {

/// A level, as the bits of an IEEE 754 single-precision number: a sign, eight bits of
/// exponent and 23 bits of fraction.
#[derive(Clone, Copy, Debug, PartialEq, Eq, Structural)]
pub struct Level {
    pub bits: u32,
}

/// The bit of the sign.
pub const SIGN_BIT: u32 = 0x8000_0000;

/// The bits of infinity; all that lies above is no number.
pub const INFINITY_BITS: u32 = 0x7f80_0000;

impl Level {
    /// The bits without the sign. They grow with the absolute value.
    pub open spec fn magnitude(self) -> int {
        self.bits as int % SIGN_BIT as int
    }

    /// Whether the bits stand for a number, finite or not.
    pub open spec fn is_number(self) -> bool {
        self.magnitude() <= INFINITY_BITS
    }

    /// A number that orders levels as their values do. Both zeros have the same.
    pub open spec fn rank(self) -> int {
        if self.bits >= SIGN_BIT {
            -self.magnitude()
        } else {
            self.magnitude()
        }
    }

    /// Whether this level is at least another; a level that is no number never is, nor is
    /// any level at least it.
    pub open spec fn at_least(self, other: Level) -> bool {
        self.is_number() && other.is_number() && self.rank() >= other.rank()
    }

    /// Whether this level reaches a threshold.
    pub fn reaches(self, threshold: Level) -> (yes: bool)
        ensures
            yes == self.at_least(threshold),
    {
        let a: u32 = self.bits % SIGN_BIT;
        let b: u32 = threshold.bits % SIGN_BIT;
        if a > INFINITY_BITS || b > INFINITY_BITS {
            return false;
        }
        let x: i64 = if self.bits >= SIGN_BIT {
            -(a as i64)
        } else {
            a as i64
        };
        let y: i64 = if threshold.bits >= SIGN_BIT {
            -(b as i64)
        } else {
            b as i64
        };
        x >= y
    }
}

/// Of two levels that are numbers one is at least the other.
pub proof fn levels_are_comparable(a: Level, b: Level)
    requires
        a.is_number(),
        b.is_number(),
    ensures
        a.at_least(b) || b.at_least(a),
{
}

/// A level that is at least one that reaches a threshold reaches the threshold too.
pub proof fn louder_reaches_too(a: Level, b: Level, threshold: Level)
    requires
        a.at_least(b),
        b.at_least(threshold),
    ensures
        a.at_least(threshold),
{
}

/// Levels compare as the numbers do that their bits stand for: from zero up by their bits,
/// below zero the other way round, both zeros alike, and what is no number not at all.
pub proof fn levels_compare_as_their_values(a: Level, b: Level)
    ensures
        a.bits <= 0x7f80_0000 && b.bits <= 0x7f80_0000 ==> (a.at_least(b) <==> a.bits >= b.bits),
        0x8000_0000 <= a.bits <= 0xff80_0000 && 0x8000_0000 <= b.bits <= 0xff80_0000 ==> (
        a.at_least(b) <==> a.bits <= b.bits),
        a.bits <= 0x7f80_0000 && 0x8000_0000 <= b.bits <= 0xff80_0000 ==> a.at_least(b),
        0x8000_0000 <= a.bits <= 0xff80_0000 && b.bits <= 0x7f80_0000 ==> (a.at_least(b)
            <==> a.bits == 0x8000_0000 && b.bits == 0),
        0x7f80_0000 < a.bits < 0x8000_0000 || a.bits > 0xff80_0000 ==> !a.at_least(b)
            && !b.at_least(a),
{
}

} // verus!
