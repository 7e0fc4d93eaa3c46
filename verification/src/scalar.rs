//! Real quantities of the renderer.
//!
//! Every length, coordinate, colour channel and probability in this library is
//! an IEEE-754 binary64 number carried by its bit pattern.  The library never
//! rounds: it orders such numbers, picks among them, changes their sign and
//! cuts them to integers, all of which are exact on the bit pattern.  Sums,
//! products, roots and the like are formed by the program around the library
//! and handed in as finished values.

use vstd::prelude::*;

verus! {

/// The sign bit of a binary64 pattern.
pub const SIGN_MASK: u64 = 0x8000_0000_0000_0000;

/// Everything but the sign bit.
pub const MAGNITUDE_MASK: u64 = 0x7fff_ffff_ffff_ffff;

/// The pattern of positive infinity; larger magnitudes are not numbers.
pub const INFINITY_BITS: u64 = 0x7ff0_0000_0000_0000;

/// The pattern of `1.0`.
pub const ONE_BITS: u64 = 0x3ff0_0000_0000_0000;

/// The fraction field of a pattern.
pub const FRACTION_MASK: u64 = 0x000f_ffff_ffff_ffff;

/// The leading bit of a normal number's significand.
pub const IMPLICIT_BIT: u64 = 0x0010_0000_0000_0000;

/// A binary64 number, held by its bit pattern.
#[derive(Clone, Copy, Debug)]
pub struct Scalar {
    pub bits: u64,
}

/// A pattern with a clear sign bit is its own magnitude and order code.
pub proof fn lemma_unsigned_pattern(bits: u64)
    requires
        bits <= MAGNITUDE_MASK,
    ensures
        (Scalar { bits }).magnitude() == bits,
        !(Scalar { bits }).sign(),
        (Scalar { bits }).key() == bits,
        (Scalar { bits }).is_nan_spec() == (bits > INFINITY_BITS),
{
    assert(bits <= 0x7fff_ffff_ffff_ffffu64 ==> bits & 0x7fff_ffff_ffff_ffffu64 == bits && bits
        & 0x8000_0000_0000_0000u64 == 0) by (bit_vector);
}

impl Scalar {
    /// The pattern without its sign.
    pub open spec fn magnitude(self) -> u64 {
        self.bits & MAGNITUDE_MASK
    }

    /// Whether the sign bit is set.
    pub open spec fn sign(self) -> bool {
        self.bits & SIGN_MASK != 0
    }

    /// Whether the pattern stands for no number.
    pub open spec fn is_nan_spec(self) -> bool {
        self.magnitude() > INFINITY_BITS
    }

    /// The order code: an integer that grows exactly as the number does.
    /// Both zeros have code 0, and the code of `-x` is minus the code of `x`.
    pub open spec fn key(self) -> int {
        if self.sign() {
            -(self.magnitude() as int)
        } else {
            self.magnitude() as int
        }
    }

    /// `self < other` as IEEE-754 has it: false when either is not a number.
    pub open spec fn lt_spec(self, other: Scalar) -> bool {
        !self.is_nan_spec() && !other.is_nan_spec() && self.key() < other.key()
    }

    /// `self <= other` as IEEE-754 has it.
    pub open spec fn le_spec(self, other: Scalar) -> bool {
        !self.is_nan_spec() && !other.is_nan_spec() && self.key() <= other.key()
    }

    /// `self == other` as IEEE-754 has it: the zeros are equal, and nothing
    /// equals a pattern that is not a number.
    pub open spec fn eq_spec(self, other: Scalar) -> bool {
        !self.is_nan_spec() && !other.is_nan_spec() && self.key() == other.key()
    }

    /// The smaller of two numbers; a pattern that is no number yields to the other.
    pub open spec fn min_spec(self, other: Scalar) -> Scalar {
        if self.is_nan_spec() {
            other
        } else if other.is_nan_spec() {
            self
        } else if other.key() < self.key() {
            other
        } else {
            self
        }
    }

    /// The larger of two numbers; a pattern that is no number yields to the other.
    pub open spec fn max_spec(self, other: Scalar) -> Scalar {
        if self.is_nan_spec() {
            other
        } else if other.is_nan_spec() {
            self
        } else if other.key() > self.key() {
            other
        } else {
            self
        }
    }

    /// The number with the opposite sign: the pattern with its sign bit turned.
    pub open spec fn neg_spec(self) -> Scalar {
        Scalar { bits: self.bits ^ SIGN_MASK }
    }

    /// The number without its sign.
    pub open spec fn abs_spec(self) -> Scalar {
        Scalar { bits: self.bits & MAGNITUDE_MASK }
    }

    /// Positive infinity.
    pub open spec fn infinity_spec() -> Scalar {
        Scalar { bits: INFINITY_BITS }
    }

    /// Negative infinity.
    pub open spec fn neg_infinity_spec() -> Scalar {
        Scalar { bits: INFINITY_BITS | SIGN_MASK }
    }

    /// The order code of a number lies between those of the infinities.
    pub proof fn lemma_key_bounds(x: Scalar)
        ensures
            -(MAGNITUDE_MASK as int) <= x.key() <= MAGNITUDE_MASK,
            !x.is_nan_spec() ==> -(INFINITY_BITS as int) <= x.key() <= INFINITY_BITS,
            Scalar::infinity_spec().key() == INFINITY_BITS,
            Scalar::neg_infinity_spec().key() == -(INFINITY_BITS as int),
            !Scalar::infinity_spec().is_nan_spec(),
            !Scalar::neg_infinity_spec().is_nan_spec(),
    {
        let b = x.bits;
        assert(b & MAGNITUDE_MASK <= 0x7fff_ffff_ffff_ffffu64) by (bit_vector);
        assert(INFINITY_BITS & MAGNITUDE_MASK == INFINITY_BITS && INFINITY_BITS & SIGN_MASK == 0)
            by (bit_vector);
        assert((INFINITY_BITS | SIGN_MASK) & MAGNITUDE_MASK == INFINITY_BITS && (INFINITY_BITS
            | SIGN_MASK) & SIGN_MASK != 0) by (bit_vector);
    }

    /// Two numbers with one order code differ at most in the sign of zero.
    pub proof fn lemma_key_injective(a: Scalar, b: Scalar)
        requires
            a.key() == b.key(),
            a.key() != 0,
        ensures
            a == b,
    {
        let x = a.bits;
        let y = b.bits;
        assert(x & MAGNITUDE_MASK <= 0x7fff_ffff_ffff_ffffu64) by (bit_vector);
        assert(y & MAGNITUDE_MASK <= 0x7fff_ffff_ffff_ffffu64) by (bit_vector);
        assert(x & MAGNITUDE_MASK == y & MAGNITUDE_MASK && ((x & SIGN_MASK != 0) == (y & SIGN_MASK
            != 0)) ==> x == y) by (bit_vector);
    }

    /// The number with the given pattern.
    pub fn from_bits(bits: u64) -> (s: Scalar)
        ensures
            s.bits == bits,
    {
        Scalar { bits }
    }

    /// The pattern of the number.
    pub fn to_bits(self) -> (bits: u64)
        ensures
            bits == self.bits,
    {
        self.bits
    }

    /// The non-negative number with the given pattern.
    pub fn positive(bits: u64) -> (s: Scalar)
        requires
            bits <= INFINITY_BITS,
        ensures
            s.bits == bits,
            s.key() == bits,
            !s.is_nan_spec(),
    {
        proof {
            lemma_unsigned_pattern(bits);
        }
        Scalar { bits }
    }

    /// Positive zero.
    pub fn zero() -> (s: Scalar)
        ensures
            s.bits == 0,
            s.key() == 0,
            !s.is_nan_spec(),
    {
        assert(0u64 & MAGNITUDE_MASK == 0 && 0u64 & SIGN_MASK == 0) by (bit_vector);
        Scalar { bits: 0 }
    }

    /// The number one.
    pub fn one() -> (s: Scalar)
        ensures
            s.bits == ONE_BITS,
            s.key() == ONE_BITS,
            !s.is_nan_spec(),
    {
        assert(ONE_BITS & MAGNITUDE_MASK == ONE_BITS && ONE_BITS & SIGN_MASK == 0) by (bit_vector);
        Scalar { bits: ONE_BITS }
    }

    /// Positive infinity, above every other number.
    pub fn infinity() -> (s: Scalar)
        ensures
            s == Scalar::infinity_spec(),
            s.key() == INFINITY_BITS,
            !s.is_nan_spec(),
    {
        assert(INFINITY_BITS & MAGNITUDE_MASK == INFINITY_BITS && INFINITY_BITS & SIGN_MASK == 0)
            by (bit_vector);
        Scalar { bits: INFINITY_BITS }
    }

    /// Negative infinity, below every other number.
    pub fn neg_infinity() -> (s: Scalar)
        ensures
            s == Scalar::neg_infinity_spec(),
            s.key() == -(INFINITY_BITS as int),
            !s.is_nan_spec(),
    {
        assert((INFINITY_BITS | SIGN_MASK) & MAGNITUDE_MASK == INFINITY_BITS && (INFINITY_BITS
            | SIGN_MASK) & SIGN_MASK != 0) by (bit_vector);
        Scalar { bits: INFINITY_BITS | SIGN_MASK }
    }

    /// Whether the pattern stands for no number.
    #[verifier::when_used_as_spec(is_nan_spec)]
    pub fn is_nan(self) -> (b: bool)
        ensures
            b == self.is_nan_spec(),
    {
        (self.bits & MAGNITUDE_MASK) > INFINITY_BITS
    }

    /// Whether the number is neither infinite nor a pattern that is no number.
    pub fn is_finite(self) -> (b: bool)
        ensures
            b == (self.magnitude() < INFINITY_BITS),
            b ==> !self.is_nan_spec() && -(INFINITY_BITS as int) < self.key() < INFINITY_BITS,
    {
        (self.bits & MAGNITUDE_MASK) < INFINITY_BITS
    }

    /// The order code as a machine integer.
    pub fn order_code(self) -> (k: i64)
        ensures
            k == self.key(),
    {
        let b: u64 = self.bits;
        let m: u64 = b & MAGNITUDE_MASK;
        assert(b & MAGNITUDE_MASK <= 0x7fff_ffff_ffff_ffffu64) by (bit_vector);
        if self.bits & SIGN_MASK != 0 {
            -(m as i64)
        } else {
            m as i64
        }
    }

    /// `self < other`.
    pub fn lt(self, other: Scalar) -> (b: bool)
        ensures
            b == self.lt_spec(other),
    {
        !self.is_nan() && !other.is_nan() && self.order_code() < other.order_code()
    }

    /// `self <= other`.
    pub fn le(self, other: Scalar) -> (b: bool)
        ensures
            b == self.le_spec(other),
    {
        !self.is_nan() && !other.is_nan() && self.order_code() <= other.order_code()
    }

    /// `self > other`.
    pub fn gt(self, other: Scalar) -> (b: bool)
        ensures
            b == other.lt_spec(self),
    {
        other.lt(self)
    }

    /// `self >= other`.
    pub fn ge(self, other: Scalar) -> (b: bool)
        ensures
            b == other.le_spec(self),
    {
        other.le(self)
    }

    /// `self == other` as numbers.
    pub fn equals(self, other: Scalar) -> (b: bool)
        ensures
            b == self.eq_spec(other),
    {
        !self.is_nan() && !other.is_nan() && self.order_code() == other.order_code()
    }

    /// The smaller of the two.
    pub fn min(self, other: Scalar) -> (m: Scalar)
        ensures
            m == self.min_spec(other),
    {
        if self.is_nan() {
            other
        } else if other.is_nan() {
            self
        } else if other.order_code() < self.order_code() {
            other
        } else {
            self
        }
    }

    /// The larger of the two.
    pub fn max(self, other: Scalar) -> (m: Scalar)
        ensures
            m == self.max_spec(other),
    {
        if self.is_nan() {
            other
        } else if other.is_nan() {
            self
        } else if other.order_code() > self.order_code() {
            other
        } else {
            self
        }
    }

    /// The number with the opposite sign.
    pub fn neg(self) -> (n: Scalar)
        ensures
            n == self.neg_spec(),
            n.key() == -self.key(),
            n.is_nan_spec() == self.is_nan_spec(),
            n.magnitude() == self.magnitude(),
    {
        let b: u64 = self.bits;
        assert((b ^ SIGN_MASK) & MAGNITUDE_MASK == b & MAGNITUDE_MASK) by (bit_vector);
        assert(((b ^ SIGN_MASK) & SIGN_MASK != 0) == (b & SIGN_MASK == 0)) by (bit_vector);
        Scalar { bits: self.bits ^ SIGN_MASK }
    }

    /// The number without its sign.
    pub fn abs(self) -> (a: Scalar)
        ensures
            a == self.abs_spec(),
            a.key() == if self.key() < 0 { -self.key() } else { self.key() },
            a.is_nan_spec() == self.is_nan_spec(),
    {
        let b: u64 = self.bits;
        assert((b & MAGNITUDE_MASK) & MAGNITUDE_MASK == b & MAGNITUDE_MASK) by (bit_vector);
        assert((b & MAGNITUDE_MASK) & SIGN_MASK == 0) by (bit_vector);
        Scalar { bits: self.bits & MAGNITUDE_MASK }
    }
}

} // verus!
