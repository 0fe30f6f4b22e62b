//! How well a candidate matches a query, and how such scores compare.
//!
//! A score is the bit pattern of an IEEE 754 number in double precision. Comparing the
//! patterns is enough to order the numbers.

use vstd::prelude::*;

verus! {

/// The bit that stands for the minus sign.
pub const SIGN_BIT: u64 = 0x8000_0000_0000_0000;

/// The bit pattern of positive infinity. A pattern beyond it, the sign bit left aside, is not
/// a number.
pub const INFINITY: u64 = 0x7ff0_0000_0000_0000;

/// A score, as the bit pattern of a double precision number.
#[derive(Clone, Copy)]
pub struct Score {
    pub bits: u64,
}

impl Score {
    /// The bit pattern without its sign bit.
    pub open spec fn magnitude(self) -> int {
        if self.bits < SIGN_BIT {
            self.bits as int
        } else {
            self.bits - SIGN_BIT
        }
    }

    /// Whether this is one of the patterns that stand for no number.
    pub open spec fn is_nan_spec(self) -> bool {
        self.magnitude() > INFINITY
    }

    /// An integer that grows with the number that the pattern stands for. It is the same for
    /// two patterns exactly where the numbers are equal, as for the two zeros.
    pub open spec fn rank(self) -> int {
        if self.bits < SIGN_BIT {
            self.magnitude()
        } else {
            -self.magnitude()
        }
    }

    /// Whether `self` is a smaller number than `other`. Nothing is smaller or greater than a
    /// pattern that is no number.
    pub open spec fn less(self, other: Score) -> bool {
        !self.is_nan_spec() && !other.is_nan_spec() && self.rank() < other.rank()
    }

    /// Whether `self` comes before `other` in the order of all patterns, in which what is no
    /// number comes after every number and is equal to itself.
    pub open spec fn below(self, other: Score) -> bool {
        !self.is_nan_spec() && (other.is_nan_spec() || self.rank() < other.rank())
    }

    /// Whether this pattern stands for no number.
    pub fn is_nan(self) -> (nan: bool)
        ensures
            nan == self.is_nan_spec(),
    {
        if self.bits < SIGN_BIT {
            self.bits > INFINITY
        } else {
            self.bits - SIGN_BIT > INFINITY
        }
    }

    /// Whether this is a smaller number than `other`.
    pub fn is_less(self, other: Score) -> (less: bool)
        ensures
            less == self.less(other),
    {
        if self.is_nan() || other.is_nan() {
            false
        } else if self.bits < SIGN_BIT {
            other.bits < SIGN_BIT && self.bits < other.bits
        } else if other.bits < SIGN_BIT {
            self.bits != SIGN_BIT || other.bits != 0
        } else {
            other.bits < self.bits
        }
    }

    /// Whether this pattern comes before `other` in the order of all patterns.
    pub fn is_below(self, other: Score) -> (below: bool)
        ensures
            below == self.below(other),
    {
        if self.is_nan() {
            false
        } else if other.is_nan() {
            true
        } else {
            self.is_less(other)
        }
    }
}

/// The order of all patterns is a strict weak order: no pattern comes before itself, the
/// relation is transitive, and so is being apart in neither direction.
pub proof fn below_is_strict_weak_order(a: Score, b: Score, c: Score)
    ensures
        !a.below(a),
        a.below(b) && b.below(c) ==> a.below(c),
        !a.below(b) && !b.below(c) ==> !a.below(c),
{
}

/// On numbers the order of all patterns is the order of the numbers.
pub proof fn below_agrees_with_less(a: Score, b: Score)
    requires
        !a.is_nan_spec(),
        !b.is_nan_spec(),
    ensures
        a.below(b) == a.less(b),
{
}

/// How two patterns that stand for numbers compare. Without the sign bit the greater pattern is the
/// greater number, with it the smaller one; what has the sign is less than what has it not, but for
/// the two zeros, which are equal.
pub proof fn numbers_compare_by_their_patterns(a: Score, b: Score, less: bool, below: bool)
    requires
        a.bits <= 0x7ff0_0000_0000_0000 || 0x8000_0000_0000_0000 <= a.bits
            <= 0xfff0_0000_0000_0000,
        b.bits <= 0x7ff0_0000_0000_0000 || 0x8000_0000_0000_0000 <= b.bits
            <= 0xfff0_0000_0000_0000,
        call_ensures(Score::is_less, (a, b), less),
        call_ensures(Score::is_below, (a, b), below),
    ensures
        less == below,
        less == a.less(b),
        below == a.below(b),
        a.bits < 0x8000_0000_0000_0000 && b.bits < 0x8000_0000_0000_0000 ==> (less <==> a.bits
            < b.bits),
        a.bits >= 0x8000_0000_0000_0000 && b.bits >= 0x8000_0000_0000_0000 ==> (less <==> a.bits
            > b.bits),
        a.bits < 0x8000_0000_0000_0000 && b.bits >= 0x8000_0000_0000_0000 ==> !less,
        a.bits >= 0x8000_0000_0000_0000 && b.bits < 0x8000_0000_0000_0000 ==> (less <==> !(a.bits
            == 0x8000_0000_0000_0000 && b.bits == 0)),
{
}

/// Numbers without a sign are compared like their patterns.
pub proof fn unsigned_scores_compare_by_their_patterns(a: Score, b: Score)
    requires
        a.bits <= 0x7ff0_0000_0000_0000,
        b.bits <= 0x7ff0_0000_0000_0000,
    ensures
        !a.is_nan_spec(),
        a.less(b) <==> a.bits < b.bits,
        a.below(b) <==> a.bits < b.bits,
{
}

/// A pattern beyond that of an infinity stands for no number and a pattern up to it for one. What is
/// no number is neither less nor greater than anything; in the order of all patterns it comes
/// before nothing, and every number comes before it.
pub proof fn what_is_no_number_comes_last(
    a: Score,
    b: Score,
    nan: bool,
    less: bool,
    greater: bool,
    below: bool,
    above: bool,
)
    requires
        call_ensures(Score::is_nan, (a,), nan),
        call_ensures(Score::is_less, (a, b), less),
        call_ensures(Score::is_less, (b, a), greater),
        call_ensures(Score::is_below, (a, b), below),
        call_ensures(Score::is_below, (b, a), above),
    ensures
        nan == a.is_nan_spec(),
        nan <==> 0x7ff0_0000_0000_0000 < a.bits < 0x8000_0000_0000_0000 || a.bits
            > 0xfff0_0000_0000_0000,
        nan ==> !less && !greater && !below,
        nan ==> (above <==> b.bits <= 0x7ff0_0000_0000_0000 || 0x8000_0000_0000_0000 <= b.bits
            <= 0xfff0_0000_0000_0000),
{
}

} // verus!
