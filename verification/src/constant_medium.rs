//! Volumes of constant density: fog and smoke.

use crate::hittable::HitRecord;
use crate::interval::Interval;
use crate::scalar::{Scalar, ONE_BITS};
use crate::vec3::{Point3, Vec3};
use vstd::prelude::*;

verus! {

/// A volume bounded by surface `boundary` in which a ray scatters after a
/// free path drawn from an exponential distribution; `neg_inv_density` is
/// minus the reciprocal of the density and `phase_function` the material
/// that scatters.
#[derive(Clone, Copy, Debug)]
pub struct ConstMedium {
    pub boundary: usize,
    pub neg_inv_density: Scalar,
    pub phase_function: usize,
}

/// The part of a ray inside a volume.
#[derive(Clone, Copy, Debug)]
pub struct Segment {
    pub entry: Scalar,
    pub exit: Scalar,
}

impl ConstMedium {
    /// The part of the ray that lies both inside the volume and inside
    /// `ray_t`, where there is one: the way from `entry` to `exit` cut to
    /// `ray_t`, and its start moved up to zero.
    pub open spec fn clipped(ray_t: Interval, entry: Scalar, exit: Scalar) -> Option<Segment> {
        let from = if entry.lt_spec(ray_t.min) {
            ray_t.min
        } else {
            entry
        };
        let to = if ray_t.max.lt_spec(exit) {
            ray_t.max
        } else {
            exit
        };
        if to.le_spec(from) {
            None
        } else {
            Some(
                Segment {
                    entry: if from.lt_spec(Scalar { bits: 0 }) {
                        Scalar { bits: 0 }
                    } else {
                        from
                    },
                    exit: to,
                },
            )
        }
    }

    /// The volume inside `boundary`.
    pub fn new_color(boundary: usize, neg_inv_density: Scalar, phase_function: usize) -> (m:
        ConstMedium)
        ensures
            m.boundary == boundary,
            m.neg_inv_density == neg_inv_density,
            m.phase_function == phase_function,
    {
        ConstMedium { boundary, neg_inv_density, phase_function }
    }

    /// The part of the ray inside the volume and inside `ray_t`.  `entry`
    /// and `exit` are the parameters at which the ray crosses the boundary,
    /// anywhere along its line.  Nothing is left where the ray leaves before
    /// `ray_t` starts or enters after it ends.
    pub fn segment(ray_t: &Interval, entry: Scalar, exit: Scalar) -> (seg: Option<Segment>)
        ensures
            seg == ConstMedium::clipped(*ray_t, entry, exit),
            seg matches Some(s) ==> ray_t.is_number() && !entry.is_nan_spec()
                && !exit.is_nan_spec() ==> 0 <= s.entry.key() && ray_t.min.key() < s.exit.key()
                <= ray_t.max.key() && entry.key() < s.exit.key() <= exit.key(),
    {
        let mut from = entry;
        let mut to = exit;
        if from.lt(ray_t.min) {
            from = ray_t.min;
        }
        if to.gt(ray_t.max) {
            to = ray_t.max;
        }
        if from.ge(to) {
            return None;
        }
        if from.lt(Scalar::zero()) {
            from = Scalar::zero();
        }
        Some(Segment { entry: from, exit: to })
    }

    /// Whether and where the ray scatters inside the volume.  `hit_distance`
    /// is the free path drawn for this ray and `distance_inside` the length
    /// of the ray's way through the volume.  The ray scatters unless the
    /// free path is the longer.  It then does so at parameter `t` and point
    /// `p`, which the caller gives; the record carries the volume's
    /// material, a normal along the first axis and the front face.
    pub fn hit(&self, hit_distance: Scalar, distance_inside: Scalar, t: Scalar, p: &Point3) -> (rec:
        Option<HitRecord>)
        ensures
            rec is Some <==> !distance_inside.lt_spec(hit_distance),
            rec matches Some(h) ==> {
                &&& h.t == t
                &&& h.p == *p
                &&& h.mat == self.phase_function
                &&& h.front_face
                &&& h.normal.e[0].bits == ONE_BITS
                &&& h.normal.e[1].bits == 0
                &&& h.normal.e[2].bits == 0
                &&& h.u.bits == 0
                &&& h.v.bits == 0
            },
    {
        if hit_distance.gt(distance_inside) {
            return None;
        }
        let normal = Vec3::new(Scalar::one(), Scalar::zero(), Scalar::zero());
        Some(HitRecord::new(p, &normal, self.phase_function, t, true))
    }
}

} // verus!
