//! Measured values: temperatures, coordinates and distances on the plot.
//!
//! A value is held as the 64 bits of its IEEE 754 double-precision form, and
//! compared by them.

use vstd::prelude::*;

verus! {

/// A double-precision value, by its bits.
#[derive(Clone, Copy, Debug, PartialEq, Eq, Structural)]
pub struct Binary64 {
    pub bits: u64,
}

/// The sign bit, and the number of magnitudes below it.
pub const SIGN: u64 = 0x8000_0000_0000_0000;

/// The bits of positive infinity. Greater magnitudes are not numbers.
pub const INFINITY: u64 = 0x7FF0_0000_0000_0000;

/// The bits of the largest finite value.
pub const LARGEST: u64 = 0x7FEF_FFFF_FFFF_FFFF;

/// The bits of the smallest finite value.
pub const SMALLEST: u64 = 0xFFEF_FFFF_FFFF_FFFF;

impl Binary64 {
    /// The bits without the sign.
    pub open spec fn magnitude(self) -> int {
        if self.bits < SIGN {
            self.bits as int
        } else {
            self.bits - SIGN
        }
    }

    pub open spec fn is_number(self) -> bool {
        self.magnitude() <= INFINITY
    }

    /// The place of the value among all numbers: magnitudes grow with the
    /// value, and the two zeros lie side by side, the negative one first.
    pub open spec fn rank(self) -> int {
        if self.bits < SIGN {
            self.magnitude()
        } else {
            -1 - self.magnitude()
        }
    }

    /// Whether one number is less than another. The two zeros are equal, and
    /// nothing is less than, or greater than, what is not a number.
    pub open spec fn less(self, other: Binary64) -> bool {
        &&& self.is_number()
        &&& other.is_number()
        &&& self.rank() < other.rank()
        &&& !(self.magnitude() == 0 && other.magnitude() == 0)
    }

    /// The greater of two values. What is not a number yields to the other,
    /// and the negative zero to the positive one.
    pub open spec fn greater_of(self, other: Binary64) -> Binary64 {
        if !self.is_number() {
            other
        } else if !other.is_number() || other.rank() <= self.rank() {
            self
        } else {
            other
        }
    }

    /// The lesser of two values. What is not a number yields to the other, and
    /// the positive zero to the negative one.
    pub open spec fn lesser_of(self, other: Binary64) -> Binary64 {
        if !self.is_number() {
            other
        } else if !other.is_number() || self.rank() <= other.rank() {
            self
        } else {
            other
        }
    }

    pub fn number(self) -> (answer: bool)
        ensures
            answer == self.is_number(),
    {
        if self.bits < SIGN {
            self.bits <= INFINITY
        } else {
            self.bits - SIGN <= INFINITY
        }
    }

    /// Whether a number has a smaller rank than another.
    fn ranks_below(self, other: Binary64) -> (answer: bool)
        ensures
            answer == (self.rank() < other.rank()),
    {
        if self.bits < SIGN {
            other.bits < SIGN && self.bits < other.bits
        } else {
            other.bits < SIGN || other.bits < self.bits
        }
    }

    /// Whether `self < other`.
    pub fn is_less(self, other: Binary64) -> (answer: bool)
        ensures
            answer == self.less(other),
    {
        let zeros = (self.bits == 0 || self.bits == SIGN) && (other.bits == 0 || other.bits
            == SIGN);
        self.number() && other.number() && self.ranks_below(other) && !zeros
    }

    pub fn max(self, other: Binary64) -> (value: Binary64)
        ensures
            value == self.greater_of(other),
    {
        if !self.number() {
            other
        } else if !other.number() || !self.ranks_below(other) {
            self
        } else {
            other
        }
    }

    pub fn min(self, other: Binary64) -> (value: Binary64)
        ensures
            value == self.lesser_of(other),
    {
        if !self.number() {
            other
        } else if !other.number() || !other.ranks_below(self) {
            self
        } else {
            other
        }
    }
}

/// The greatest of some values, and of the smallest finite value.
pub open spec fn greatest(values: Seq<Binary64>) -> Binary64
    decreases values.len(),
{
    if values.len() == 0 {
        Binary64 { bits: SMALLEST }
    } else {
        greatest(values.drop_last()).greater_of(values.last())
    }
}

/// The least of some values, and of the largest finite value.
pub open spec fn least(values: Seq<Binary64>) -> Binary64
    decreases values.len(),
{
    if values.len() == 0 {
        Binary64 { bits: LARGEST }
    } else {
        least(values.drop_last()).lesser_of(values.last())
    }
}

/// The greatest or the least, as `high` says.
pub open spec fn extreme(values: Seq<Binary64>, high: bool) -> Binary64 {
    if high {
        greatest(values)
    } else {
        least(values)
    }
}

/// Law: the greatest value is a number, no value is greater, and it is either
/// one of the values or the smallest finite value.
pub proof fn law_greatest_is_an_upper_bound(values: Seq<Binary64>)
    ensures
        greatest(values).is_number(),
        greatest(values).rank() >= (Binary64 { bits: SMALLEST }).rank(),
        forall|i: int|
            0 <= i < values.len() && (#[trigger] values[i]).is_number() ==> values[i].rank()
                <= greatest(values).rank() && !greatest(values).less(values[i]),
        values.contains(greatest(values)) || greatest(values) == (Binary64 { bits: SMALLEST }),
    decreases values.len(),
{
    if values.len() > 0 {
        let rest = values.drop_last();
        law_greatest_is_an_upper_bound(rest);
        assert forall|i: int|
            0 <= i < values.len() && (#[trigger] values[i]).is_number() implies values[i].rank()
            <= greatest(values).rank() by {
            if i < rest.len() {
                assert(rest[i] == values[i]);
            }
        }
        if rest.contains(greatest(rest)) {
            let k = choose|k: int| 0 <= k < rest.len() && rest[k] == greatest(rest);
            assert(values[k] == greatest(rest));
        }
        assert(values[values.len() - 1] == values.last());
    }
}

/// Law: the least value is a number, no value is less, and it is either one of
/// the values or the largest finite value.
pub proof fn law_least_is_a_lower_bound(values: Seq<Binary64>)
    ensures
        least(values).is_number(),
        least(values).rank() <= (Binary64 { bits: LARGEST }).rank(),
        forall|i: int|
            0 <= i < values.len() && (#[trigger] values[i]).is_number() ==> least(values).rank()
                <= values[i].rank() && !values[i].less(least(values)),
        values.contains(least(values)) || least(values) == (Binary64 { bits: LARGEST }),
    decreases values.len(),
{
    if values.len() > 0 {
        let rest = values.drop_last();
        law_least_is_a_lower_bound(rest);
        assert forall|i: int|
            0 <= i < values.len() && (#[trigger] values[i]).is_number() implies least(values).rank()
            <= values[i].rank() by {
            if i < rest.len() {
                assert(rest[i] == values[i]);
            }
        }
        if rest.contains(least(rest)) {
            let k = choose|k: int| 0 <= k < rest.len() && rest[k] == least(rest);
            assert(values[k] == least(rest));
        }
        assert(values[values.len() - 1] == values.last());
    }
}

/// The greatest of some values is not below that of others which are all among
/// them.
proof fn lemma_greatest_grows(a: Seq<Binary64>, b: Seq<Binary64>)
    requires
        forall|v: Binary64| #[trigger] a.contains(v) ==> b.contains(v),
    ensures
        greatest(a).rank() <= greatest(b).rank(),
{
    law_greatest_is_an_upper_bound(a);
    law_greatest_is_an_upper_bound(b);
    if a.contains(greatest(a)) {
        let k = choose|k: int| 0 <= k < b.len() && b[k] == greatest(a);
        assert(b[k].is_number());
    }
}

/// The least of some values is not above that of others which are all among
/// them.
proof fn lemma_least_shrinks(a: Seq<Binary64>, b: Seq<Binary64>)
    requires
        forall|v: Binary64| #[trigger] a.contains(v) ==> b.contains(v),
    ensures
        least(b).rank() <= least(a).rank(),
{
    law_least_is_a_lower_bound(a);
    law_least_is_a_lower_bound(b);
    if a.contains(least(a)) {
        let k = choose|k: int| 0 <= k < b.len() && b[k] == least(a);
        assert(b[k].is_number());
    }
}

/// Law: the greatest and the least depend neither on the order of the values
/// nor on how often one is repeated.
pub proof fn law_extreme_ignores_order(a: Seq<Binary64>, b: Seq<Binary64>, high: bool)
    requires
        forall|v: Binary64| #[trigger] a.contains(v) <==> b.contains(v),
    ensures
        extreme(a, high) == extreme(b, high),
{
    lemma_greatest_grows(a, b);
    lemma_greatest_grows(b, a);
    lemma_least_shrinks(a, b);
    lemma_least_shrinks(b, a);
}

/// Folds some values to the greatest or the least of them.
pub fn fold_extreme(values: &Vec<Binary64>, high: bool) -> (value: Binary64)
    ensures
        value == extreme(values@, high),
{
    let mut value = if high {
        Binary64 { bits: SMALLEST }
    } else {
        Binary64 { bits: LARGEST }
    };
    let mut i: usize = 0;
    assert(values@.take(0) =~= Seq::empty());
    while i < values.len()
        invariant
            i <= values.len(),
            value == extreme(values@.take(i as int), high),
        decreases values.len() - i,
    {
        assert(values@.take(i + 1).drop_last() =~= values@.take(i as int));
        value = if high {
            value.max(values[i])
        } else {
            value.min(values[i])
        };
        i = i + 1;
    }
    assert(values@.take(i as int) =~= values@);
    value
}

/// Law: values are ordered as IEEE 754 orders them. Without a sign the greater
/// bits are the greater value, with a sign they are the lesser one, a value with
/// a sign is less than one without unless both are zeros, and nothing is less
/// or greater than what is not a number.
pub proof fn law_bits_order_values(a: Binary64, b: Binary64)
    ensures
        a.bits <= 0x7FF0_0000_0000_0000 && b.bits <= 0x7FF0_0000_0000_0000 ==> (a.less(b)
            <==> a.bits < b.bits),
        0x8000_0000_0000_0000 <= a.bits <= 0xFFF0_0000_0000_0000 && 0x8000_0000_0000_0000 <= b.bits
            <= 0xFFF0_0000_0000_0000 ==> (a.less(b) <==> b.bits < a.bits),
        0x8000_0000_0000_0000 <= a.bits <= 0xFFF0_0000_0000_0000 && b.bits <= 0x7FF0_0000_0000_0000
            ==> !b.less(a) && (a.less(b) <==> a.bits != 0x8000_0000_0000_0000 || b.bits != 0),
        0x7FF0_0000_0000_0000 < a.bits < 0x8000_0000_0000_0000 || 0xFFF0_0000_0000_0000 < a.bits
            ==> !a.less(b) && !b.less(a),
{
}

/// Law: the order of numbers is strict and transitive, and changing both signs
/// reverses it.
pub proof fn law_order_of_values_is_strict(a: Binary64, b: Binary64, c: Binary64)
    ensures
        !a.less(a),
        !(a.less(b) && b.less(a)),
        a.less(b) && b.less(c) ==> a.less(c),
        a.bits < 0x8000_0000_0000_0000 && b.bits < 0x8000_0000_0000_0000 ==> (a.less(b) <==> (
        Binary64 { bits: (b.bits + 0x8000_0000_0000_0000) as u64 }).less(
            Binary64 { bits: (a.bits + 0x8000_0000_0000_0000) as u64 },
        )),
{
}

/// Law: the greater and the lesser of two values are one of them each, and
/// neither of the two lies beyond. If only one of them is a number, it is both.
pub proof fn law_greater_and_lesser(a: Binary64, b: Binary64)
    ensures
        a.greater_of(b) == a || a.greater_of(b) == b,
        a.lesser_of(b) == a || a.lesser_of(b) == b,
        !a.greater_of(b).less(a) && !a.greater_of(b).less(b),
        !a.less(a.lesser_of(b)) && !b.less(a.lesser_of(b)),
        a.less(b) ==> a.greater_of(b) == b && a.lesser_of(b) == a,
        b.less(a) ==> a.greater_of(b) == a && a.lesser_of(b) == b,
        a.is_number() && !b.is_number() ==> a.greater_of(b) == a && a.lesser_of(b) == a,
        b.is_number() && !a.is_number() ==> a.greater_of(b) == b && a.lesser_of(b) == b,
        a.is_number() <==> a.bits <= 0x7FF0_0000_0000_0000 || 0x8000_0000_0000_0000 <= a.bits
            <= 0xFFF0_0000_0000_0000,
{
}

/// Law: one of the values is the greatest, or the least, wherever one of them is
/// finite, and no other lies beyond it.
pub proof fn law_extreme_is_one_of_the_values(values: Seq<Binary64>, high: bool, finite: int)
    requires
        0 <= finite < values.len(),
        values[finite].bits < 0x7FF0_0000_0000_0000 || 0x8000_0000_0000_0000
            <= values[finite].bits < 0xFFF0_0000_0000_0000,
    ensures
        exists|i: int| 0 <= i < values.len() && #[trigger] values[i] == extreme(values, high),
        forall|i: int|
            0 <= i < values.len() ==> !(if high {
                extreme(values, high).less(#[trigger] values[i])
            } else {
                values[i].less(extreme(values, high))
            }),
{
    law_greatest_is_an_upper_bound(values);
    law_least_is_a_lower_bound(values);
    assert(values[finite].is_number());
    if !values.contains(extreme(values, high)) {
        assert(values[finite] == extreme(values, high));
    }
}

} // verus!
