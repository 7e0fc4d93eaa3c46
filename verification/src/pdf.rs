//! The distributions from which directions are drawn.
//!
//! A path is continued along a direction drawn from a distribution, and the
//! light it gathers is weighed by the density of that direction.  Densities
//! and draws are arithmetic; what is decided here is which distribution a
//! draw is made from and what a density is cut to.

use crate::sampling::coin;
use crate::scalar::Scalar;
use crate::vec3::{Point3, Vec3};
use vstd::prelude::*;

verus! {

/// The pattern of `1 / (4 * pi)`, the density of a direction drawn evenly
/// from the whole sphere.
pub const UNIFORM_SPHERE_BITS: u64 = 0x3fb4_5f30_6dc9_c883;

/// Directions drawn evenly from the whole sphere.
#[derive(Clone, Copy, Debug, Default)]
pub struct SpherePdf {}

/// Directions drawn around the normal `w`, with a density that falls with
/// the cosine of the angle to it.
#[derive(Clone, Copy, Debug)]
pub struct CosinePdf {
    pub w: Vec3,
}

/// Directions drawn towards the surfaces of the list `objects`, as seen
/// from `origin`.
#[derive(Clone, Copy, Debug)]
pub struct HittablePdf {
    pub objects: usize,
    pub origin: Point3,
}

/// One of the plain distributions.
#[derive(Clone, Copy, Debug)]
pub enum Pdf {
    Sphere(SpherePdf),
    Cosine(CosinePdf),
    Hittable(HittablePdf),
}

/// Two distributions mixed half and half.
#[derive(Clone, Copy, Debug)]
pub struct MixturePdf {
    pub p: [Pdf; 2],
}

impl SpherePdf {
    /// The density of any direction: `1 / (4 * pi)`.
    pub fn value(&self, _direction: &Vec3) -> (d: Scalar)
        ensures
            d.bits == UNIFORM_SPHERE_BITS,
            !d.is_nan_spec(),
            d.key() > 0,
    {
        Scalar::positive(UNIFORM_SPHERE_BITS)
    }
}

impl CosinePdf {
    /// The distribution around the normal `w`.
    pub fn new(w: Vec3) -> (pdf: CosinePdf)
        ensures
            pdf.w == w,
    {
        CosinePdf { w }
    }

    /// The density of a direction, from `cosine_over_pi`: the cosine of the
    /// angle between the direction and the normal, divided by pi.  Below the
    /// surface the density is zero.
    pub fn value(&self, cosine_over_pi: Scalar) -> (d: Scalar)
        ensures
            d == cosine_over_pi.max_spec(Scalar { bits: 0 }),
            !cosine_over_pi.is_nan_spec() ==> !d.is_nan_spec() && d.key() >= 0,
    {
        cosine_over_pi.max(Scalar::zero())
    }
}

impl HittablePdf {
    /// The distribution towards the surfaces `objects`, seen from `origin`.
    pub fn new(objects: usize, origin: Point3) -> (pdf: HittablePdf)
        ensures
            pdf.objects == objects,
            pdf.origin == origin,
    {
        HittablePdf { objects, origin }
    }
}

impl MixturePdf {
    /// The even mixture of `first` and `second`.
    pub fn new(first: Pdf, second: Pdf) -> (pdf: MixturePdf)
        ensures
            pdf.p[0] == first,
            pdf.p[1] == second,
    {
        MixturePdf { p: [first, second] }
    }

    /// The distribution to draw from, given the toss of a coin: the first
    /// on heads, the second on tails.
    pub fn pick(&self, heads: bool) -> (chosen: Pdf)
        ensures
            chosen == if heads {
                self.p[0]
            } else {
                self.p[1]
            },
    {
        if heads {
            self.p[0]
        } else {
            self.p[1]
        }
    }

    /// The distribution that the next direction is drawn from: one of the
    /// two, by the toss of a fair coin.
    pub fn generate(&self) -> (chosen: Pdf)
        ensures
            chosen == self.p[0] || chosen == self.p[1],
    {
        self.pick(coin())
    }
}

} // verus!
