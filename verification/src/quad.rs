//! Flat surfaces: parallelograms and triangles.

use crate::aabb::{Aabb, PaddingPair};
use crate::hittable::{Crossing, HitRecord};
use crate::interval::Interval;
use crate::scalar::{Scalar, ONE_BITS};
use crate::vec3::{Point3, Vec3, NEAR_ZERO_BITS};
use vstd::prelude::*;

verus! {

/// What a flat surface adds to its plane: a box, and the test that tells
/// whether a point of the plane, given by its two coordinates along the
/// edges, belongs to the surface.
pub trait Flat {
    /// Whether the box of the surface is the hull of what it is made of.
    spec fn boxed(&self) -> bool;

    /// Whether the point with plane coordinates `(a, b)` belongs to a
    /// surface of this kind.
    spec fn interior(a: Scalar, b: Scalar) -> bool;

    /// Recomputes the box of the surface.
    fn set_bounding_box(&mut self)
        ensures
            final(self).boxed(),
    ;

    /// Whether the point with plane coordinates `(a, b)` belongs to a
    /// surface of this kind.
    fn is_interior(a: Scalar, b: Scalar) -> (inside: bool)
        ensures
            inside == Self::interior(a, b),
    ;
}

/// The parallelogram with corner `q` and edges `u` and `v`.  `normal` is the
/// unit normal of its plane, `d` the plane's offset along it, `w` the vector
/// that turns a point of the plane into its coordinates along the edges, and
/// `area` the area.  `far` is the corner opposite `q`, and `along_u` and
/// `along_v` are the two corners next to it.  `pads` holds the paddings of
/// the boxes of the two diagonals, the one from `q` to `far` first.
#[derive(Clone, Copy, Debug)]
pub struct Quad {
    pub q: Point3,
    pub u: Vec3,
    pub v: Vec3,
    pub w: Vec3,
    pub mat: usize,
    pub bbox: Aabb,
    pub normal: Vec3,
    pub d: Scalar,
    pub area: Scalar,
    pub far: Point3,
    pub along_u: Point3,
    pub along_v: Point3,
    pub pads: PaddingPair,
}

/// What of a parallelogram takes arithmetic to find: see `Quad`.
#[derive(Clone, Copy, Debug)]
pub struct QuadFrame {
    pub w: Vec3,
    pub normal: Vec3,
    pub d: Scalar,
    pub area: Scalar,
    pub far: Point3,
    pub along_u: Point3,
    pub along_v: Point3,
    pub pads: PaddingPair,
}

/// One side of a box: a corner and the two edges that leave it.
#[derive(Clone, Copy, Debug)]
pub struct Face {
    pub q: Point3,
    pub u: Vec3,
    pub v: Vec3,
}

impl Quad {
    /// The box of a parallelogram: the hull of the boxes of its two
    /// diagonals, each padded.
    pub open spec fn box_of(
        q: Point3,
        far: Point3,
        along_u: Point3,
        along_v: Point3,
        pads: PaddingPair,
    ) -> Aabb {
        Aabb::hull(
            Aabb::diagonal(q, far).padded(pads.first.extent, pads.first.widened),
            Aabb::diagonal(along_u, along_v).padded(pads.second.extent, pads.second.widened),
        )
    }

    /// Whether the paddings of a parallelogram lose nothing: each widened
    /// box has numbers for bounds and encloses the box of its diagonal.
    pub open spec fn pads_fit(
        q: Point3,
        far: Point3,
        along_u: Point3,
        along_v: Point3,
        pads: PaddingPair,
    ) -> bool {
        &&& pads.first.widened.is_number()
        &&& pads.first.widened.encloses(Aabb::diagonal(q, far))
        &&& pads.second.widened.is_number()
        &&& pads.second.widened.encloses(Aabb::diagonal(along_u, along_v))
    }

    /// Whether a ray with the given crossing of the plane meets the
    /// parallelogram inside `ray_t`.  `denom` is the dot product of the
    /// plane's normal with the ray's direction: below `1e-8` in size the ray
    /// runs along the plane and misses.  Else the crossing must lie in
    /// `ray_t` and its plane coordinates in the unit square.
    pub open spec fn meets(ray_t: Interval, denom: Scalar, at: Crossing) -> bool {
        &&& !denom.abs_spec().lt_spec(Scalar { bits: NEAR_ZERO_BITS })
        &&& ray_t.contains_spec(at.t)
        &&& Self::interior(at.u, at.v)
    }

    /// The parallelogram with corner `q`, edges `u` and `v` and material
    /// `mat`; `frame` holds what the caller has worked out of it.  Its box
    /// is padded, and holds the four corners where the paddings lose
    /// nothing.
    pub fn new(q: Point3, u: Vec3, v: Vec3, mat: usize, frame: &QuadFrame) -> (quad: Quad)
        ensures
            quad.q == q,
            quad.u == u,
            quad.v == v,
            quad.mat == mat,
            quad.w == frame.w,
            quad.normal == frame.normal,
            quad.d == frame.d,
            quad.area == frame.area,
            quad.far == frame.far,
            quad.along_u == frame.along_u,
            quad.along_v == frame.along_v,
            quad.pads == frame.pads,
            quad.boxed(),
            q.is_number() && frame.far.is_number() && frame.along_u.is_number()
                && frame.along_v.is_number() && Quad::pads_fit(
                q,
                frame.far,
                frame.along_u,
                frame.along_v,
                frame.pads,
            ) ==> quad.bbox.is_number() && quad.bbox.holds(q) && quad.bbox.holds(frame.far)
                && quad.bbox.holds(frame.along_u) && quad.bbox.holds(frame.along_v),
    {
        let mut ret = Quad {
            q,
            u,
            v,
            w: frame.w,
            mat,
            bbox: Aabb::universe(),
            normal: frame.normal,
            d: frame.d,
            area: frame.area,
            far: frame.far,
            along_u: frame.along_u,
            along_v: frame.along_v,
            pads: frame.pads,
        };
        ret.set_bounding_box();
        proof {
            let main = Aabb::diagonal(q, frame.far);
            let cross = Aabb::diagonal(frame.along_u, frame.along_v);
            if q.is_number() && frame.far.is_number() && frame.along_u.is_number()
                && frame.along_v.is_number() && Quad::pads_fit(
                q,
                frame.far,
                frame.along_u,
                frame.along_v,
                frame.pads,
            ) {
                main.lemma_padded_encloses(frame.pads.first.extent, frame.pads.first.widened);
                cross.lemma_padded_encloses(frame.pads.second.extent, frame.pads.second.widened);
                Aabb::lemma_hull_encloses(
                    main.padded(frame.pads.first.extent, frame.pads.first.widened),
                    cross.padded(frame.pads.second.extent, frame.pads.second.widened),
                );
                assert(main.holds(q) && main.holds(frame.far));
                assert(cross.holds(frame.along_u) && cross.holds(frame.along_v));
            }
        }
        ret
    }

    /// Where a ray meets the parallelogram inside `ray_t`.  `denom` is the
    /// dot product of the plane's normal with the ray's direction, and `at`
    /// the crossing of the ray with the plane, its coordinates `u` and `v`
    /// taken along the two edges.  The point of a hit is the point of the
    /// crossing, so it lies in the parallelogram's box where the crossing
    /// does.
    pub fn hit(&self, ray_t: &Interval, denom: Scalar, at: &Crossing) -> (rec: Option<HitRecord>)
        ensures
            rec is Some <==> Quad::meets(*ray_t, denom, *at),
            rec matches Some(h) ==> {
                &&& at.recorded(self.mat, h)
                &&& ray_t.contains_spec(h.t)
                &&& Self::interior(h.u, h.v)
                &&& self.bbox.holds(at.p) ==> self.bbox.holds(h.p)
            },
    {
        if denom.abs().lt(Scalar::positive(NEAR_ZERO_BITS)) {
            return None;
        }
        if !ray_t.contains(at.t) {
            return None;
        }
        if !Self::is_interior(at.u, at.v) {
            return None;
        }
        Some(at.record(self.mat))
    }

    /// The box that holds the parallelogram.
    pub fn bounding_box(&self) -> (b: &Aabb)
        ensures
            *b == self.bbox,
    {
        &self.bbox
    }

    /// The density with which sampling the parallelogram picks a direction:
    /// `density` where a ray along the direction meets it, zero where not.
    pub fn pdf_value(&self, met: bool, density: Scalar) -> (d: Scalar)
        ensures
            d == if met {
                density
            } else {
                Scalar { bits: 0 }
            },
    {
        if met {
            density
        } else {
            Scalar::zero()
        }
    }
}

impl Flat for Quad {
    open spec fn boxed(&self) -> bool {
        self.bbox == Quad::box_of(self.q, self.far, self.along_u, self.along_v, self.pads)
    }

    /// Inside the unit square, its border included.
    open spec fn interior(a: Scalar, b: Scalar) -> bool {
        let unit = Interval { min: Scalar { bits: 0 }, max: Scalar { bits: ONE_BITS } };
        unit.contains_spec(a) && unit.contains_spec(b)
    }

    fn set_bounding_box(&mut self)
        ensures
            final(self).q == old(self).q,
            final(self).u == old(self).u,
            final(self).v == old(self).v,
            final(self).w == old(self).w,
            final(self).mat == old(self).mat,
            final(self).normal == old(self).normal,
            final(self).d == old(self).d,
            final(self).area == old(self).area,
            final(self).far == old(self).far,
            final(self).along_u == old(self).along_u,
            final(self).along_v == old(self).along_v,
            final(self).pads == old(self).pads,
    {
        self.bbox =
        Aabb::new_aabb(
            &Aabb::new_diagonal(
                self.q,
                self.far,
                &self.pads.first.extent,
                &self.pads.first.widened,
            ),
            &Aabb::new_diagonal(
                self.along_u,
                self.along_v,
                &self.pads.second.extent,
                &self.pads.second.widened,
            ),
        );
    }

    fn is_interior(a: Scalar, b: Scalar) -> (inside: bool) {
        let unit_interval = Interval::new(Scalar::zero(), Scalar::one());
        unit_interval.contains(a) && unit_interval.contains(b)
    }
}

/// The six sides of the box with opposite corners `a` and `b`, each as a
/// corner and two edges.  `dx`, `dy` and `dz` are the box's edges along the
/// axes, from its lowest corner.  The sides come in this order: front, right,
/// back, left, top, bottom.
pub fn cube(a: Point3, b: Point3, dx: Vec3, dy: Vec3, dz: Vec3) -> (sides: Vec<Face>)
    ensures
        sides.len() == 6,
        forall|i: int| 0 <= i < 4 ==> (#[trigger] sides[i]).v == dy,
        sides[0].u == dx && sides[4].u == dx && sides[5].u == dx,
        sides[3].u == dz && sides[5].v == dz,
        forall|k: int| 0 <= k < 3 ==> (#[trigger] sides[1].u.e[k]) == dz.e[k].neg_spec(),
        forall|k: int| 0 <= k < 3 ==> (#[trigger] sides[2].u.e[k]) == dx.e[k].neg_spec(),
        forall|k: int| 0 <= k < 3 ==> (#[trigger] sides[4].v.e[k]) == dz.e[k].neg_spec(),
        sides[0].q.e[0] == a.e[0].min_spec(b.e[0]) && sides[0].q.e[1] == a.e[1].min_spec(b.e[1])
            && sides[0].q.e[2] == a.e[2].max_spec(b.e[2]),
        sides[1].q.e[0] == a.e[0].max_spec(b.e[0]) && sides[1].q.e[1] == a.e[1].min_spec(b.e[1])
            && sides[1].q.e[2] == a.e[2].max_spec(b.e[2]),
        sides[2].q.e[0] == a.e[0].max_spec(b.e[0]) && sides[2].q.e[1] == a.e[1].min_spec(b.e[1])
            && sides[2].q.e[2] == a.e[2].min_spec(b.e[2]),
        sides[3].q.e[0] == a.e[0].min_spec(b.e[0]) && sides[3].q.e[1] == a.e[1].min_spec(b.e[1])
            && sides[3].q.e[2] == a.e[2].min_spec(b.e[2]),
        sides[4].q.e[0] == a.e[0].min_spec(b.e[0]) && sides[4].q.e[1] == a.e[1].max_spec(b.e[1])
            && sides[4].q.e[2] == a.e[2].max_spec(b.e[2]),
        forall|k: int| 0 <= k < 3 ==> (#[trigger] sides[5].q.e[k]) == sides[3].q.e[k],
{
    let min = Vec3::new(a.x().min(b.x()), a.y().min(b.y()), a.z().min(b.z()));
    let max = Vec3::new(a.x().max(b.x()), a.y().max(b.y()), a.z().max(b.z()));
    let mut sides: Vec<Face> = Vec::new();
    sides.push(Face { q: Vec3::new(min.x(), min.y(), max.z()), u: dx, v: dy });
    sides.push(Face { q: Vec3::new(max.x(), min.y(), max.z()), u: dz.neg(), v: dy });
    sides.push(Face { q: Vec3::new(max.x(), min.y(), min.z()), u: dx.neg(), v: dy });
    sides.push(Face { q: Vec3::new(min.x(), min.y(), min.z()), u: dz, v: dy });
    sides.push(Face { q: Vec3::new(min.x(), max.y(), max.z()), u: dx, v: dz.neg() });
    sides.push(Face { q: Vec3::new(min.x(), min.y(), min.z()), u: dx, v: dz });
    sides
}

} // verus!
