//! Spheres, at rest or moving along a line during the shutter interval.

use crate::aabb::{Aabb, Padding, PaddingPair};
use crate::hittable::{Crossing, HitRecord};
use crate::interval::Interval;
use crate::scalar::Scalar;
use crate::vec3::{Point3, Vec3};
use vstd::prelude::*;

verus! {

/// A sphere of radius `radius` whose centre is `center1` at shutter time 0
/// and moves by `center_vec` until time 1.
#[derive(Clone, Copy, Debug)]
pub struct Sphere {
    pub center1: Point3,
    pub radius: Scalar,
    pub mat: usize,
    pub is_moving: bool,
    pub center_vec: Vec3,
    pub bbox: Aabb,
}

impl Sphere {
    /// The parameter at which a ray meets the sphere inside `ray_t`, given
    /// the discriminant of the quadratic and its two roots, the smaller one
    /// first.  There is none where the discriminant is negative.  Else it is
    /// the smaller root where `ray_t` surrounds it, else the larger root
    /// where `ray_t` surrounds that, else none.
    pub open spec fn root(discriminant: Scalar, near: Scalar, far: Scalar, ray_t: Interval)
        -> Option<Scalar> {
        if discriminant.lt_spec(Scalar { bits: 0 }) {
            None
        } else if ray_t.surrounds_spec(near) {
            Some(near)
        } else if ray_t.surrounds_spec(far) {
            Some(far)
        } else {
            None
        }
    }

    /// A sphere at rest.  `low` and `high` are the centre moved by the
    /// radius down and up along every axis: the corners of its box.  The box
    /// is padded with `pad`.
    pub fn new_static(
        center: Point3,
        radius: Scalar,
        mat: usize,
        low: Point3,
        high: Point3,
        pad: &Padding,
    ) -> (s: Sphere)
        ensures
            s.center1 == center,
            s.radius == radius,
            s.mat == mat,
            !s.is_moving,
            forall|i: int| 0 <= i < 3 ==> (#[trigger] s.center_vec.e[i]).bits == 0,
            s.bbox == Aabb::diagonal(low, high).padded(pad.extent, pad.widened),
            low.is_number() && high.is_number() && pad.widened.is_number() && pad.widened.encloses(
                Aabb::diagonal(low, high),
            ) ==> s.bbox.is_number() && s.bbox.holds(low) && s.bbox.holds(high),
    {
        Sphere {
            center1: center,
            radius,
            mat,
            is_moving: false,
            center_vec: Vec3::default(),
            bbox: Aabb::new_diagonal(low, high, &pad.extent, &pad.widened),
        }
    }

    /// A sphere that moves from `center1` by `center_vec`.  `low1` and
    /// `high1` are the corners of its box at shutter time 0, `low2` and
    /// `high2` those at time 1; the box of the sphere is the hull of the
    /// two, each padded with its own padding.
    pub fn new_motive(
        center1: Point3,
        center_vec: Vec3,
        radius: Scalar,
        mat: usize,
        low1: Point3,
        high1: Point3,
        low2: Point3,
        high2: Point3,
        pads: &PaddingPair,
    ) -> (s: Sphere)
        ensures
            s.center1 == center1,
            s.center_vec == center_vec,
            s.radius == radius,
            s.mat == mat,
            s.is_moving,
            s.bbox == Aabb::hull(
                Aabb::diagonal(low1, high1).padded(pads.first.extent, pads.first.widened),
                Aabb::diagonal(low2, high2).padded(pads.second.extent, pads.second.widened),
            ),
            low1.is_number() && high1.is_number() && low2.is_number() && high2.is_number()
                && pads.first.widened.is_number() && pads.first.widened.encloses(
                Aabb::diagonal(low1, high1),
            ) && pads.second.widened.is_number() && pads.second.widened.encloses(
                Aabb::diagonal(low2, high2),
            ) ==> s.bbox.is_number() && s.bbox.holds(low1) && s.bbox.holds(high1) && s.bbox.holds(
                low2,
            ) && s.bbox.holds(high2),
    {
        let box1 = Aabb::new_diagonal(low1, high1, &pads.first.extent, &pads.first.widened);
        let box2 = Aabb::new_diagonal(low2, high2, &pads.second.extent, &pads.second.widened);
        proof {
            if box1.is_number() && box2.is_number() {
                Aabb::lemma_hull_encloses(box1, box2);
            }
        }
        Sphere {
            center1,
            radius,
            mat,
            is_moving: true,
            center_vec,
            bbox: Aabb::new_aabb(&box1, &box2),
        }
    }

    /// The centre to meet a ray with: `displaced`, the centre moved to the
    /// ray's shutter time, where the sphere moves, and the centre itself
    /// where it rests.
    pub fn sphere_center(&self, displaced: Point3) -> (c: Point3)
        ensures
            c == if self.is_moving {
                displaced
            } else {
                self.center1
            },
    {
        if self.is_moving {
            displaced
        } else {
            self.center1
        }
    }

    /// Where a ray meets the sphere inside `ray_t`.  The caller has solved
    /// the quadratic: `discriminant` is its discriminant, `near` the crossing
    /// at the smaller root and `far` the one at the larger.  A negative
    /// discriminant is a miss.  Else the nearer crossing is taken where
    /// `ray_t` surrounds its parameter, else the farther one where `ray_t`
    /// surrounds that.  The point of a hit is the point of the crossing
    /// taken, so it lies in the sphere's box where both crossings do.
    pub fn hit(&self, ray_t: &Interval, discriminant: Scalar, near: &Crossing, far: &Crossing) -> (rec:
        Option<HitRecord>)
        ensures
            rec is Some <==> Sphere::root(discriminant, near.t, far.t, *ray_t) is Some,
            rec matches Some(h) ==> {
                &&& Some(h.t) == Sphere::root(discriminant, near.t, far.t, *ray_t)
                &&& ray_t.surrounds_spec(h.t)
                &&& if ray_t.surrounds_spec(near.t) {
                    near.recorded(self.mat, h)
                } else {
                    far.recorded(self.mat, h)
                }
                &&& self.bbox.holds(near.p) && self.bbox.holds(far.p) ==> self.bbox.holds(h.p)
            },
    {
        if discriminant.lt(Scalar::zero()) {
            return None;
        }
        if ray_t.surrounds(near.t) {
            Some(near.record(self.mat))
        } else if ray_t.surrounds(far.t) {
            Some(far.record(self.mat))
        } else {
            None
        }
    }

    /// The box that holds the sphere.
    pub fn bounding_box(&self) -> (b: &Aabb)
        ensures
            *b == self.bbox,
    {
        &self.bbox
    }

    /// The density with which sampling the sphere's disc picks a direction:
    /// `density`, the reciprocal of the solid angle under which the sphere
    /// is seen, where a ray along the direction meets the sphere, and zero
    /// where it does not.
    pub fn pdf_value(&self, met: bool, density: Scalar) -> (d: Scalar)
        ensures
            d == if met {
                density
            } else {
                Scalar { bits: 0 }
            },
    {
        if met {
            density
        } else {
            Scalar::zero()
        }
    }
}

} // verus!
