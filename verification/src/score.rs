//! Scores: the real-valued measures of a decode attempt (probabilities, log
//! probabilities, ratios, temperatures), carried as the bit pattern of an
//! IEEE 754 double so that they can be stored and compared exactly.
//!
//! A pattern is a sign bit followed by 63 bits of magnitude. Magnitudes above
//! that of infinity are not-a-number. Among the others the numeric order is
//! the order of the signed magnitude, and the two zeros are equal.

use vstd::prelude::*;

verus! {

/// The sign bit of a pattern.
pub const SIGN_BIT: u64 = 0x8000_0000_0000_0000;

/// The magnitude of infinity: every larger magnitude is not-a-number.
pub const INFINITY_MAGNITUDE: u64 = 0x7FF0_0000_0000_0000;

/// The pattern of the not-a-number that stands for a measure not taken.
pub const NAN_BITS: u64 = 0x7FF8_0000_0000_0000;

/// A double-precision value, held as its bit pattern. Two scores are equal
/// when their patterns are: the two zeros are different scores, neither of
/// which is above the other.
#[derive(Clone, Copy, Debug, PartialEq, Eq, Structural)]
pub struct Score {
    pub bits: u64,
}

impl Score {
    /// The pattern without its sign bit.
    pub open spec fn magnitude(self) -> int {
        if self.bits >= SIGN_BIT {
            self.bits - SIGN_BIT
        } else {
            self.bits as int
        }
    }

    /// Whether the pattern is not-a-number, which compares with nothing.
    pub open spec fn is_nan(self) -> bool {
        self.magnitude() > INFINITY_MAGNITUDE
    }

    /// The signed magnitude. On patterns that are numbers it grows exactly as
    /// the number does.
    pub open spec fn rank(self) -> int {
        if self.bits >= SIGN_BIT {
            -self.magnitude()
        } else {
            self.magnitude()
        }
    }

    /// The place of the pattern in the total order of doubles, in which
    /// every pattern has a place of its own: the negative not-a-numbers come
    /// first, then the negative numbers from infinity up to the negative
    /// zero, then the positive zero and the positive numbers up to infinity,
    /// then the positive not-a-numbers.
    pub open spec fn total_rank(self) -> int {
        if self.bits >= SIGN_BIT {
            -self.magnitude() - 1
        } else {
            self.magnitude()
        }
    }

    /// Both are numbers.
    pub open spec fn comparable(self, other: Score) -> bool {
        !self.is_nan() && !other.is_nan()
    }

    /// `self > other` as doubles compare: false when either is not-a-number.
    pub open spec fn above(self, other: Score) -> bool {
        self.comparable(other) && self.rank() > other.rank()
    }

    /// `self < other` as doubles compare: false when either is not-a-number.
    pub open spec fn below(self, other: Score) -> bool {
        self.comparable(other) && self.rank() < other.rank()
    }

    /// `self <= other` as doubles compare.
    pub open spec fn at_most(self, other: Score) -> bool {
        self.comparable(other) && self.rank() <= other.rank()
    }

    /// `self >= other` as doubles compare.
    pub open spec fn at_least(self, other: Score) -> bool {
        self.comparable(other) && self.rank() >= other.rank()
    }

    /// The not-a-number that stands for a measure not taken.
    #[verifier::when_used_as_spec(spec_not_a_number)]
    pub fn not_a_number() -> (s: Score)
        ensures
            s == Score::spec_not_a_number(),
            s.is_nan(),
    {
        Score { bits: NAN_BITS }
    }

    pub open spec fn spec_not_a_number() -> Score {
        Score { bits: NAN_BITS }
    }

    /// The score with the given bit pattern.
    pub fn from_bits(bits: u64) -> (s: Score)
        ensures
            s.bits == bits,
    {
        Score { bits }
    }

    /// The bit pattern of the score.
    pub fn to_bits(self) -> (bits: u64)
        ensures
            bits == self.bits,
    {
        self.bits
    }

    fn signed_magnitude(self) -> (r: i128)
        ensures
            r == self.rank(),
    {
        if self.bits >= SIGN_BIT {
            -((self.bits - SIGN_BIT) as i128)
        } else {
            self.bits as i128
        }
    }

    fn place(self) -> (r: i128)
        ensures
            r == self.total_rank(),
    {
        if self.bits >= SIGN_BIT {
            -((self.bits - SIGN_BIT) as i128) - 1
        } else {
            self.bits as i128
        }
    }

    /// Whether `self` comes at or after `other` in the total order.
    pub fn total_ge(self, other: Score) -> (b: bool)
        ensures
            b == (self.total_rank() >= other.total_rank()),
    {
        self.place() >= other.place()
    }

    /// Whether the score is not-a-number.
    pub fn nan(self) -> (b: bool)
        ensures
            b == self.is_nan(),
    {
        if self.bits >= SIGN_BIT {
            self.bits - SIGN_BIT > INFINITY_MAGNITUDE
        } else {
            self.bits > INFINITY_MAGNITUDE
        }
    }

    /// `self > other`.
    pub fn gt(self, other: Score) -> (b: bool)
        ensures
            b == self.above(other),
    {
        !self.nan() && !other.nan() && self.signed_magnitude() > other.signed_magnitude()
    }

    /// `self < other`.
    pub fn lt(self, other: Score) -> (b: bool)
        ensures
            b == self.below(other),
    {
        !self.nan() && !other.nan() && self.signed_magnitude() < other.signed_magnitude()
    }
}

/// Of two numbers exactly one of below, equal in rank, above holds; with a
/// not-a-number none of the comparisons holds.
pub proof fn lemma_comparisons(a: Score, b: Score)
    ensures
        a.comparable(b) ==> (!a.above(b) <==> a.at_most(b)),
        a.comparable(b) ==> (!a.below(b) <==> a.at_least(b)),
        a.above(b) <==> b.below(a),
        !a.comparable(b) ==> !a.above(b) && !a.below(b) && !a.at_most(b) && !a.at_least(b),
{
}

/// Among numbers the total order is the numeric order, but for the zeros,
/// of which it puts the negative first; and no two patterns share a place.
pub proof fn lemma_total_order(a: Score, b: Score)
    ensures
        a.above(b) ==> a.total_rank() > b.total_rank(),
        a.comparable(b) && a.total_rank() > b.total_rank() ==> a.above(b) || (a.rank() == 0
            && b.rank() == 0),
        a.total_rank() == b.total_rank() <==> a == b,
{
}

} // verus!
