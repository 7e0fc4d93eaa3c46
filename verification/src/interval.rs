//! Closed ranges of scalars.

use crate::scalar::Scalar;
use vstd::prelude::*;

verus! {

/// The pattern of `0.0001`, the least thickness a bounding interval may keep.
pub const MIN_THICKNESS_BITS: u64 = 0x3f1a_36e2_eb1c_432d;

/// The range from `min` to `max`.
#[derive(Clone, Copy, Debug)]
pub struct Interval {
    pub min: Scalar,
    pub max: Scalar,
}

impl Interval {
    /// Whether both ends are numbers.
    pub open spec fn is_number(self) -> bool {
        !self.min.is_nan_spec() && !self.max.is_nan_spec()
    }

    /// `min <= x <= max`.
    pub open spec fn contains_spec(self, x: Scalar) -> bool {
        self.min.le_spec(x) && x.le_spec(self.max)
    }

    /// `min < x < max`.
    pub open spec fn surrounds_spec(self, x: Scalar) -> bool {
        self.min.lt_spec(x) && x.lt_spec(self.max)
    }

    /// `x` moved to the nearer end where it lies outside.
    pub open spec fn clamp_spec(self, x: Scalar) -> Scalar {
        if x.lt_spec(self.min) {
            self.min
        } else if self.max.lt_spec(x) {
            self.max
        } else {
            x
        }
    }

    /// The least range that holds both `a` and `b`.
    pub open spec fn hull(a: Interval, b: Interval) -> Interval {
        Interval { min: a.min.min_spec(b.min), max: a.max.max_spec(b.max) }
    }

    /// Whether every number of `other` lies in `self`.  An empty `other`
    /// lies in every range.
    pub open spec fn encloses(self, other: Interval) -> bool {
        other.max.key() < other.min.key() || (self.min.key() <= other.min.key() && other.max.key()
            <= self.max.key())
    }

    /// The range to keep once its thickness `size` is known: `widened` where
    /// the range is thinner than `0.0001`, the range itself otherwise.
    pub open spec fn pad_spec(self, size: Scalar, widened: Interval) -> Interval {
        if size.lt_spec(Scalar { bits: MIN_THICKNESS_BITS }) {
            widened
        } else {
            self
        }
    }

    /// The range from `min` to `max`.
    pub fn new(min: Scalar, max: Scalar) -> (iv: Interval)
        ensures
            iv.min == min,
            iv.max == max,
    {
        Interval { min, max }
    }

    /// A copy of `other`.
    pub fn copy(other: &Interval) -> (iv: Interval)
        ensures
            iv == *other,
    {
        Interval { min: other.min, max: other.max }
    }

    /// The range that holds nothing: from positive to negative infinity.
    pub fn empty() -> (iv: Interval)
        ensures
            iv.min == Scalar::infinity_spec(),
            iv.max == Scalar::neg_infinity_spec(),
            forall|x: Scalar| !iv.contains_spec(x),
    {
        let iv = Interval { min: Scalar::infinity(), max: Scalar::neg_infinity() };
        assert forall|x: Scalar| !iv.contains_spec(x) by {
            if iv.contains_spec(x) {
                assert(iv.min.key() <= x.key() <= iv.max.key());
            }
        }
        iv
    }

    /// The range that holds every number.
    pub fn universe() -> (iv: Interval)
        ensures
            iv.min == Scalar::neg_infinity_spec(),
            iv.max == Scalar::infinity_spec(),
            forall|x: Scalar| !x.is_nan_spec() ==> iv.contains_spec(x),
    {
        let iv = Interval { min: Scalar::neg_infinity(), max: Scalar::infinity() };
        assert forall|x: Scalar| !x.is_nan_spec() implies iv.contains_spec(x) by {
            Scalar::lemma_key_bounds(x);
        }
        iv
    }

    /// The least range that holds both `a` and `b`.
    pub fn new_interval(a: &Interval, b: &Interval) -> (iv: Interval)
        ensures
            iv == Interval::hull(*a, *b),
    {
        Interval { min: a.min.min(b.min), max: a.max.max(b.max) }
    }

    /// Whether `min <= x <= max`.
    pub fn contains(&self, x: Scalar) -> (b: bool)
        ensures
            b == self.contains_spec(x),
    {
        self.min.le(x) && x.le(self.max)
    }

    /// Whether `min < x < max`.
    pub fn surrounds(&self, x: Scalar) -> (b: bool)
        ensures
            b == self.surrounds_spec(x),
    {
        self.min.lt(x) && x.lt(self.max)
    }

    /// `x`, or the end of the range that it lies beyond.
    pub fn clamp(&self, x: Scalar) -> (c: Scalar)
        ensures
            c == self.clamp_spec(x),
            self.is_number() && self.min.key() <= self.max.key() && !x.is_nan_spec()
                ==> self.contains_spec(c),
    {
        if x.lt(self.min) {
            self.min
        } else if x.gt(self.max) {
            self.max
        } else {
            x
        }
    }

    /// The range to keep once its thickness `size` is known: `widened` where
    /// the range is thinner than `0.0001`, the range itself otherwise.
    pub fn pad(&self, size: Scalar, widened: &Interval) -> (iv: Interval)
        ensures
            iv == self.pad_spec(size, *widened),
    {
        if size.lt(Scalar::positive(MIN_THICKNESS_BITS)) {
            Interval::copy(widened)
        } else {
            Interval::copy(self)
        }
    }

    /// The hull of two ranges holds both.
    pub proof fn lemma_hull_encloses(a: Interval, b: Interval)
        requires
            a.is_number(),
            b.is_number(),
        ensures
            Interval::hull(a, b).is_number(),
            Interval::hull(a, b).encloses(a),
            Interval::hull(a, b).encloses(b),
            Interval::hull(a, b).min.key() == if b.min.key() < a.min.key() {
                b.min.key()
            } else {
                a.min.key()
            },
            Interval::hull(a, b).max.key() == if b.max.key() > a.max.key() {
                b.max.key()
            } else {
                a.max.key()
            },
    {
    }
}

impl Default for Interval {
    /// The range that holds every number.
    fn default() -> (iv: Interval)
        ensures
            iv.min == Scalar::neg_infinity_spec(),
            iv.max == Scalar::infinity_spec(),
    {
        Interval { min: Scalar::neg_infinity(), max: Scalar::infinity() }
    }
}

} // verus!
