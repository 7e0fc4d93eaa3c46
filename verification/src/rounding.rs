//! Cutting scalars to integers.
//!
//! A binary64 number with exponent field `e` above zero and fraction field
//! `f` has the size `(2^52 + f) * 2^(e - 1075)`.  Its whole part is found by
//! shifting, without rounding.  The conversions here saturate: a number
//! beyond the range of the target type becomes the nearest end of the range,
//! and a pattern that is no number becomes zero.

use crate::scalar::{Scalar, FRACTION_MASK, IMPLICIT_BIT, MAGNITUDE_MASK, SIGN_MASK};
use vstd::arithmetic::power2::pow2;
use vstd::prelude::*;

verus! {

/// The exponent field of the number one.
pub const EXPONENT_BIAS: u64 = 1023;

/// The exponent field at which the significand counts whole units.
pub const EXPONENT_UNIT: u64 = 1075;

impl Scalar {
    /// The exponent field.
    pub open spec fn exponent(self) -> u64 {
        self.magnitude() >> 52
    }

    /// The significand of a normal number: the fraction field under the
    /// leading bit.
    pub open spec fn significand(self) -> u64 {
        (self.magnitude() & FRACTION_MASK) | IMPLICIT_BIT
    }

    /// The whole part of the size of the number times `2^k`, for a product
    /// below `2^63`: nothing where the product is below one, else the
    /// significand shifted down to whole units.
    pub open spec fn whole_scaled(self, k: u64) -> u64 {
        if self.exponent() + k < EXPONENT_BIAS || self.exponent() == 0 {
            0
        } else if self.exponent() + k <= EXPONENT_UNIT {
            self.significand() >> ((EXPONENT_UNIT - self.exponent() - k) as u64)
        } else {
            self.significand() << ((self.exponent() + k - EXPONENT_UNIT) as u64)
        }
    }

    /// Whether the number times `2^k` has a part after the point.
    pub open spec fn has_part_scaled(self, k: u64) -> bool {
        if self.exponent() + k < EXPONENT_BIAS || self.exponent() == 0 {
            self.magnitude() != 0
        } else if self.exponent() + k <= EXPONENT_UNIT {
            (self.whole_scaled(k) << ((EXPONENT_UNIT - self.exponent() - k) as u64))
                != self.significand()
        } else {
            false
        }
    }

    /// The number times `2^k`, cut towards zero to a 32-bit integer.
    pub open spec fn scaled_to_i32_spec(self, k: u64) -> i32 {
        if self.is_nan_spec() {
            0
        } else if self.exponent() + k >= EXPONENT_BIAS + 31 {
            if self.sign() {
                i32::MIN
            } else {
                i32::MAX
            }
        } else if self.sign() {
            (-(self.whole_scaled(k) as int)) as i32
        } else {
            self.whole_scaled(k) as i32
        }
    }

    /// The number cut towards zero to a 32-bit integer.
    pub open spec fn to_i32_spec(self) -> i32 {
        self.scaled_to_i32_spec(0)
    }

    /// The greatest whole number not above this one, as a 32-bit integer.
    pub open spec fn floor_to_i32_spec(self) -> i32 {
        if self.is_nan_spec() {
            0
        } else if self.exponent() >= EXPONENT_BIAS + 31 {
            if self.sign() {
                i32::MIN
            } else {
                i32::MAX
            }
        } else if self.sign() {
            if self.has_part_scaled(0) {
                (-(self.whole_scaled(0) as int) - 1) as i32
            } else {
                (-(self.whole_scaled(0) as int)) as i32
            }
        } else {
            self.whole_scaled(0) as i32
        }
    }

    /// The number cut towards zero to an unsigned 32-bit integer.
    pub open spec fn to_u32_spec(self) -> u32 {
        if self.is_nan_spec() || self.sign() {
            0
        } else if self.exponent() >= EXPONENT_BIAS + 32 {
            u32::MAX
        } else {
            self.whole_scaled(0) as u32
        }
    }

    /// The whole part of a scaled number is the significand divided by the
    /// power of two that its exponent falls short of whole units, and it
    /// fits the integer it is cut to.
    pub proof fn lemma_whole_scaled(self, k: u64)
        requires
            k <= 64,
            self.exponent() > 0,
            EXPONENT_BIAS <= self.exponent() + k <= EXPONENT_UNIT,
        ensures
            self.whole_scaled(k) == self.significand() as nat / pow2(
                (EXPONENT_UNIT - self.exponent() - k) as nat,
            ),
            self.exponent() + k < EXPONENT_BIAS + 32 ==> self.whole_scaled(k) <= u32::MAX,
            self.exponent() + k < EXPONENT_BIAS + 31 ==> self.whole_scaled(k) <= i32::MAX,
            0x10_0000_0000_0000 <= self.significand() < 0x20_0000_0000_0000,
    {
        let m = self.magnitude();
        let sig = self.significand();
        let e = self.exponent();
        let shift: u64 = (EXPONENT_UNIT - e - k) as u64;
        assert(0x10_0000_0000_0000u64 <= ((m & FRACTION_MASK) | IMPLICIT_BIT)
            < 0x20_0000_0000_0000u64) by (bit_vector);
        vstd::bits::lemma_u64_shr_is_div(sig, shift);
        assert(sig < 0x20_0000_0000_0000u64 && 21 <= shift <= 52 ==> (sig >> shift)
            <= 0xffff_ffffu64) by (bit_vector);
        assert(sig < 0x20_0000_0000_0000u64 && 22 <= shift <= 52 ==> (sig >> shift)
            <= 0x7fff_ffffu64) by (bit_vector);
    }

    /// The number times `2^k`, cut towards zero to a 32-bit integer.
    pub fn scaled_to_i32(self, k: u64) -> (n: i32)
        requires
            k <= 64,
        ensures
            n == self.scaled_to_i32_spec(k),
    {
        if self.is_nan() {
            return 0;
        }
        let b: u64 = self.bits;
        let m: u64 = b & MAGNITUDE_MASK;
        let e: u64 = m >> 52;
        let negative = b & SIGN_MASK != 0;
        assert((b & MAGNITUDE_MASK) >> 52 <= 2047) by (bit_vector);
        if e + k >= EXPONENT_BIAS + 31 {
            return if negative {
                i32::MIN
            } else {
                i32::MAX
            };
        }
        if e + k < EXPONENT_BIAS || e == 0 {
            return 0;
        }
        let sig: u64 = (m & FRACTION_MASK) | IMPLICIT_BIT;
        let shift: u64 = EXPONENT_UNIT - e - k;
        let w: u64 = sig >> shift;
        proof {
            self.lemma_whole_scaled(k);
        }
        if negative {
            -(w as i32)
        } else {
            w as i32
        }
    }

    /// The number cut towards zero to a 32-bit integer: what is left before
    /// the point.
    pub fn to_i32(self) -> (n: i32)
        ensures
            n == self.to_i32_spec(),
    {
        self.scaled_to_i32(0)
    }

    /// The greatest whole number not above this one, as a 32-bit integer.
    pub fn floor_to_i32(self) -> (n: i32)
        ensures
            n == self.floor_to_i32_spec(),
    {
        if self.is_nan() {
            return 0;
        }
        let b: u64 = self.bits;
        let m: u64 = b & MAGNITUDE_MASK;
        let e: u64 = m >> 52;
        let negative = b & SIGN_MASK != 0;
        assert((b & MAGNITUDE_MASK) >> 52 <= 2047) by (bit_vector);
        if e >= EXPONENT_BIAS + 31 {
            return if negative {
                i32::MIN
            } else {
                i32::MAX
            };
        }
        if e < EXPONENT_BIAS {
            return if negative && m != 0 {
                -1
            } else {
                0
            };
        }
        let sig: u64 = (m & FRACTION_MASK) | IMPLICIT_BIT;
        let shift: u64 = EXPONENT_UNIT - e;
        let w: u64 = sig >> shift;
        proof {
            self.lemma_whole_scaled(0);
            assert(sig < 0x20_0000_0000_0000u64 && 22 <= shift <= 52 ==> ((sig >> shift) << shift)
                <= sig) by (bit_vector);
        }
        let back: u64 = w << shift;
        if negative {
            if back != sig {
                -(w as i32) - 1
            } else {
                -(w as i32)
            }
        } else {
            w as i32
        }
    }

    /// The number cut towards zero to an unsigned 32-bit integer.
    pub fn to_u32(self) -> (n: u32)
        ensures
            n == self.to_u32_spec(),
    {
        if self.is_nan() {
            return 0;
        }
        let b: u64 = self.bits;
        let m: u64 = b & MAGNITUDE_MASK;
        let e: u64 = m >> 52;
        assert((b & MAGNITUDE_MASK) >> 52 <= 2047) by (bit_vector);
        if b & SIGN_MASK != 0 {
            return 0;
        }
        if e >= EXPONENT_BIAS + 32 {
            return u32::MAX;
        }
        if e < EXPONENT_BIAS {
            return 0;
        }
        let sig: u64 = (m & FRACTION_MASK) | IMPLICIT_BIT;
        let shift: u64 = EXPONENT_UNIT - e;
        let w: u64 = sig >> shift;
        proof {
            self.lemma_whole_scaled(0);
        }
        w as u32
    }
}

} // verus!
