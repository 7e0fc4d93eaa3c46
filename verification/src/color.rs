//! From light to bytes.

use crate::interval::Interval;
use crate::scalar::{Scalar, INFINITY_BITS, MAGNITUDE_MASK};
use crate::texture::Color;
use vstd::prelude::*;

verus! {

/// The pattern of `0.999`, the brightest that a channel is written.
pub const INTENSITY_MAX_BITS: u64 = 0x3fef_f7ce_d916_872b;

/// The gamma-2 encoding of one channel: `root`, the square root of the
/// light, where the light is finite and above zero, and zero where it is
/// not: light that is infinite or no number is written as darkness.
pub open spec fn gamma_of(linear_component: Scalar, root: Scalar) -> Scalar {
    if linear_component.magnitude() < INFINITY_BITS && (Scalar { bits: 0 }).lt_spec(
        linear_component,
    ) {
        root
    } else {
        Scalar { bits: 0 }
    }
}

/// The byte of one channel: its gamma encoding held to the range from zero
/// to `0.999`, times 256, cut to a whole number.
pub open spec fn byte_of(linear_component: Scalar, root: Scalar) -> i32 {
    (Interval { min: Scalar { bits: 0 }, max: Scalar { bits: INTENSITY_MAX_BITS } }).clamp_spec(
        gamma_of(linear_component, root),
    ).scaled_to_i32_spec(8)
}

/// The gamma-2 encoding of one channel, given the square root of the light.
pub fn linear_to_gamma(linear_component: Scalar, root: Scalar) -> (g: Scalar)
    ensures
        g == gamma_of(linear_component, root),
{
    if linear_component.is_finite() && linear_component.gt(Scalar::zero()) {
        root
    } else {
        Scalar::zero()
    }
}

/// The light of a channel with what is no number or not finite replaced by
/// darkness.
pub fn sanitize(c: Scalar) -> (s: Scalar)
    ensures
        s == if c.magnitude() < INFINITY_BITS {
            c
        } else {
            Scalar { bits: 0 }
        },
        !s.is_nan_spec(),
        s.magnitude() < INFINITY_BITS,
{
    if c.is_finite() {
        c
    } else {
        Scalar::zero()
    }
}

/// The byte of one channel.
pub fn channel(linear_component: Scalar, root: Scalar) -> (b: i32)
    ensures
        b == byte_of(linear_component, root),
        0 <= b <= 255,
{
    let intensity = Interval::new(Scalar::zero(), Scalar::positive(INTENSITY_MAX_BITS));
    let g = linear_to_gamma(linear_component, root);
    let c = intensity.clamp(g);
    let b = c.scaled_to_i32(8);
    proof {
        crate::scalar::lemma_unsigned_pattern(INTENSITY_MAX_BITS);
        if !c.is_nan_spec() {
            let bits = c.bits;
            let m = c.magnitude();
            assert(0 <= c.key() <= INTENSITY_MAX_BITS);
            assert(m <= INTENSITY_MAX_BITS);
            assert(m <= 0x3fef_f7ce_d916_872bu64 ==> (m >> 52) <= 1022) by (bit_vector);
            assert(m >> 52 <= 1022);
            assert(m == 0 ==> m >> 52 == 0) by (bit_vector);
            if c.sign() {
                assert(c.key() == 0);
                assert(m == 0);
                assert(c.whole_scaled(8) == 0);
            }
            if c.exponent() + 8 >= 1023 && c.exponent() > 0 {
                c.lemma_whole_scaled(8);
                let sig = c.significand();
                let shift: u64 = (1075 - c.exponent() - 8) as u64;
                assert(sig < 0x20_0000_0000_0000u64 && 45 <= shift <= 52 ==> (sig >> shift) <= 255)
                    by (bit_vector);
                assert(c.whole_scaled(8) == sig >> shift);
                assert(c.whole_scaled(8) <= 255);
            } else {
                assert(c.whole_scaled(8) == 0);
            }
            assert(c.exponent() + 8 < 1054);
            assert(0 <= c.scaled_to_i32_spec(8) <= 255);
        }
    }
    b
}

/// The three bytes of a pixel.  `pixel_color` is the light gathered in the
/// three channels and `roots` holds the square root of each.
pub fn put_color(pixel_color: &Color, roots: &Color) -> (rgb: (i32, i32, i32))
    ensures
        rgb.0 == byte_of(pixel_color.e[0], roots.e[0]),
        rgb.1 == byte_of(pixel_color.e[1], roots.e[1]),
        rgb.2 == byte_of(pixel_color.e[2], roots.e[2]),
        0 <= rgb.0 <= 255,
        0 <= rgb.1 <= 255,
        0 <= rgb.2 <= 255,
{
    (
        channel(pixel_color.x(), roots.x()),
        channel(pixel_color.y(), roots.y()),
        channel(pixel_color.z(), roots.z()),
    )
}

} // verus!
