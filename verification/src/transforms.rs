//! Surfaces moved and turned.
//!
//! A moved or turned surface meets a ray by moving or turning the ray the
//! other way, and moves or turns what the surface reports back again.  The
//! moving and turning is arithmetic and is handed in.  What is settled here
//! is the box of such a surface, and that a surface moved by nothing or
//! turned by no angle is met as the surface itself.

use crate::aabb::{Aabb, Padding};
use crate::hittable::HitRecord;
use crate::ray::Ray;
use crate::scalar::{Scalar, ONE_BITS};
use crate::vec3::{Point3, Vec3};
use vstd::prelude::*;

verus! {

/// Surface `object` moved by `offset`.
#[derive(Clone, Copy, Debug)]
pub struct Translate {
    pub object: usize,
    pub offset: Vec3,
    pub bbox: Aabb,
}

/// Surface `object` turned about the second axis by the angle with the
/// given sine and cosine.
#[derive(Clone, Copy, Debug)]
pub struct RotateY {
    pub object: usize,
    pub sin_theta: Scalar,
    pub cos_theta: Scalar,
    pub bbox: Aabb,
}

impl Translate {
    /// Surface `object` moved by `offset`; `moved` is the surface's box
    /// moved likewise, which is padded with `pad`.
    pub fn new(object: usize, offset: Vec3, moved: Aabb, pad: &Padding) -> (t: Translate)
        ensures
            t.object == object,
            t.offset == offset,
            t.bbox == moved.padded(pad.extent, pad.widened),
    {
        Translate {
            object,
            offset,
            bbox: Aabb::new(moved.x, moved.y, moved.z, &pad.extent, &pad.widened),
        }
    }

    /// Whether the surface is moved by nothing: every component of the
    /// offset is zero.
    pub open spec fn is_still(self) -> bool {
        &&& self.offset.e[0].eq_spec(Scalar { bits: 0 })
        &&& self.offset.e[1].eq_spec(Scalar { bits: 0 })
        &&& self.offset.e[2].eq_spec(Scalar { bits: 0 })
    }

    /// Whether the surface is moved by nothing.
    pub fn still(&self) -> (b: bool)
        ensures
            b == self.is_still(),
    {
        let zero = Scalar::zero();
        self.offset.x().equals(zero) && self.offset.y().equals(zero) && self.offset.z().equals(
            zero,
        )
    }

    /// The ray to meet the surface with, in the place where the surface
    /// stood before it was moved.  `moved_origin` is the ray's origin moved
    /// back by the offset.  A surface moved by nothing is met with the ray
    /// itself.
    pub fn ray(&self, r: &Ray, moved_origin: Point3) -> (inner: Ray)
        ensures
            self.is_still() ==> inner == *r,
            !self.is_still() ==> inner == (Ray { orig: moved_origin, dir: r.dir, tm: r.tm }),
    {
        if self.still() {
            *r
        } else {
            Ray::new(moved_origin, r.dir, r.tm)
        }
    }

    /// What the moved surface reports, given what the surface itself has
    /// reported for the ray moved back.  `moved_point` is the point of that
    /// record moved by the offset.  There is a hit exactly where the surface
    /// itself reports one; the record keeps everything but the point, so
    /// its parameter is the one that the surface reported, and its point
    /// lies in the moved box where the point handed in does.  A surface
    /// moved by nothing reports what the surface itself reports.
    pub fn hit(&self, inner: &Option<HitRecord>, moved_point: Point3) -> (rec: Option<HitRecord>)
        ensures
            rec is Some <==> *inner is Some,
            self.is_still() ==> rec == *inner,
            !self.is_still() ==> (rec matches Some(h) ==> h == (HitRecord {
                p: moved_point,
                ..inner->0
            })),
            rec matches Some(h) ==> h.t == inner->0.t && (self.bbox.holds(
                if self.is_still() {
                    inner->0.p
                } else {
                    moved_point
                },
            ) ==> self.bbox.holds(h.p)),
    {
        match inner {
            None => None,
            Some(h) => {
                if self.still() {
                    Some(*h)
                } else {
                    let mut out = *h;
                    out.p = moved_point;
                    Some(out)
                }
            },
        }
    }

    /// The box that holds the moved surface.
    pub fn bounding_box(&self) -> (b: &Aabb)
        ensures
            *b == self.bbox,
    {
        &self.bbox
    }
}

impl RotateY {
    /// The eight corners of a box, in the order in which the first, the
    /// second and the third coordinate go from the lower bound to the upper,
    /// the third fastest.
    pub fn corners(inner: &Aabb) -> (c: Vec<Point3>)
        ensures
            c.len() == 8,
            forall|n: int|
                0 <= n < 8 ==> {
                    &&& (#[trigger] c[n]).e[0] == if n / 4 == 1 {
                        inner.x.max
                    } else {
                        inner.x.min
                    }
                    &&& c[n].e[1] == if (n / 2) % 2 == 1 {
                        inner.y.max
                    } else {
                        inner.y.min
                    }
                    &&& c[n].e[2] == if n % 2 == 1 {
                        inner.z.max
                    } else {
                        inner.z.min
                    }
                },
    {
        let mut c: Vec<Point3> = Vec::new();
        c.push(inner.corner(false, false, false));
        c.push(inner.corner(false, false, true));
        c.push(inner.corner(false, true, false));
        c.push(inner.corner(false, true, true));
        c.push(inner.corner(true, false, false));
        c.push(inner.corner(true, false, true));
        c.push(inner.corner(true, true, false));
        c.push(inner.corner(true, true, true));
        c
    }

    /// Surface `object` turned by the angle with the given sine and cosine.
    /// `turned` holds the corners of the surface's box after the turn; the
    /// box of the turned surface is the least box that holds them all,
    /// padded with `pad`.  Where the padding loses nothing, the box holds
    /// every turned corner.
    pub fn new(
        object: usize,
        sin_theta: Scalar,
        cos_theta: Scalar,
        turned: &Vec<Point3>,
        pad: &Padding,
    ) -> (r: RotateY)
        ensures
            r.object == object,
            r.sin_theta == sin_theta,
            r.cos_theta == cos_theta,
            r.bbox == Aabb::extent_of(turned@, turned.len() as int).padded(
                pad.extent,
                pad.widened,
            ),
            Aabb::all_numbers(turned@) ==> forall|i: int|
                0 <= i < turned.len() ==> Aabb::extent_of(turned@, turned.len() as int).holds(
                    #[trigger] turned[i],
                ),
            Aabb::all_numbers(turned@) ==> forall|o: Aabb|
                o.is_number() && (forall|i: int|
                    0 <= i < turned.len() ==> o.holds(#[trigger] turned[i])) ==> #[trigger] o.encloses(
                    Aabb::extent_of(turned@, turned.len() as int),
                ),
            Aabb::all_numbers(turned@) && pad.widened.is_number() && pad.widened.encloses(
                Aabb::extent_of(turned@, turned.len() as int),
            ) ==> r.bbox.is_number() && forall|i: int|
                0 <= i < turned.len() ==> r.bbox.holds(#[trigger] turned[i]),
    {
        let raw = Aabb::enclosing(turned);
        proof {
            if pad.widened.is_number() && pad.widened.encloses(raw) {
                raw.lemma_padded_encloses(pad.extent, pad.widened);
            }
        }
        RotateY {
            object,
            sin_theta,
            cos_theta,
            bbox: Aabb::new(raw.x, raw.y, raw.z, &pad.extent, &pad.widened),
        }
    }

    /// Whether the surface is turned by no angle: the sine is zero and the
    /// cosine is one.
    pub open spec fn is_still(self) -> bool {
        self.sin_theta.eq_spec(Scalar { bits: 0 }) && self.cos_theta.eq_spec(
            Scalar { bits: ONE_BITS },
        )
    }

    /// Whether the surface is turned by no angle.
    pub fn still(&self) -> (b: bool)
        ensures
            b == self.is_still(),
    {
        self.sin_theta.equals(Scalar::zero()) && self.cos_theta.equals(Scalar::one())
    }

    /// The ray to meet the surface with, in the frame in which the surface
    /// stood before it was turned.  `turned_origin` and `turned_direction`
    /// are the ray's origin and direction turned back by the angle.  A
    /// surface turned by no angle is met with the ray itself.
    pub fn ray(&self, r: &Ray, turned_origin: Point3, turned_direction: Vec3) -> (inner: Ray)
        ensures
            self.is_still() ==> inner == *r,
            !self.is_still() ==> inner == (Ray {
                orig: turned_origin,
                dir: turned_direction,
                tm: r.tm,
            }),
    {
        if self.still() {
            *r
        } else {
            Ray::new(turned_origin, turned_direction, r.tm)
        }
    }

    /// What the turned surface reports, given what the surface itself has
    /// reported for the ray turned back.  `turned_point` and `turned_normal`
    /// are the point and the normal of that record turned by the angle.
    /// There is a hit exactly where the surface itself reports one; the
    /// record keeps everything but the point and the normal, so its
    /// parameter is the one that the surface reported, and its point lies in
    /// the turned box where the point handed in does.  A surface turned by
    /// no angle reports what the surface itself reports.
    pub fn hit(
        &self,
        inner: &Option<HitRecord>,
        turned_point: Point3,
        turned_normal: Vec3,
    ) -> (rec: Option<HitRecord>)
        ensures
            rec is Some <==> *inner is Some,
            self.is_still() ==> rec == *inner,
            !self.is_still() ==> (rec matches Some(h) ==> h == (HitRecord {
                p: turned_point,
                normal: turned_normal,
                ..inner->0
            })),
            rec matches Some(h) ==> h.t == inner->0.t && (self.bbox.holds(
                if self.is_still() {
                    inner->0.p
                } else {
                    turned_point
                },
            ) ==> self.bbox.holds(h.p)),
    {
        match inner {
            None => None,
            Some(h) => {
                if self.still() {
                    Some(*h)
                } else {
                    let mut out = *h;
                    out.p = turned_point;
                    out.normal = turned_normal;
                    Some(out)
                }
            },
        }
    }

    /// The box that holds the turned surface.
    pub fn bounding_box(&self) -> (b: &Aabb)
        ensures
            *b == self.bbox,
    {
        &self.bbox
    }
}

/// A surface that is turned by no angle keeps its box.  Take a box whose
/// bounds are numbers in order and the least box that holds the corners of
/// a turned surface, where the turned corners are the corners themselves:
/// the two have the same bounds.
pub proof fn lemma_unturned_box(inner: Aabb, corners: Seq<Point3>, turned: Aabb)
    requires
        inner.is_number(),
        inner.x.min.key() <= inner.x.max.key(),
        inner.y.min.key() <= inner.y.max.key(),
        inner.z.min.key() <= inner.z.max.key(),
        corners.len() == 8,
        forall|n: int|
            0 <= n < 8 ==> {
                &&& (#[trigger] corners[n]).e[0] == if n / 4 == 1 {
                    inner.x.max
                } else {
                    inner.x.min
                }
                &&& corners[n].e[1] == if (n / 2) % 2 == 1 {
                    inner.y.max
                } else {
                    inner.y.min
                }
                &&& corners[n].e[2] == if n % 2 == 1 {
                    inner.z.max
                } else {
                    inner.z.min
                }
            },
        turned.is_number(),
        forall|i: int| 0 <= i < corners.len() ==> turned.holds(#[trigger] corners[i]),
        forall|o: Aabb|
            o.is_number() && (forall|i: int| 0 <= i < corners.len() ==> o.holds(#[trigger] corners[i]))
                ==> #[trigger] o.encloses(turned),
    ensures
        turned.x.min.key() == inner.x.min.key(),
        turned.x.max.key() == inner.x.max.key(),
        turned.y.min.key() == inner.y.min.key(),
        turned.y.max.key() == inner.y.max.key(),
        turned.z.min.key() == inner.z.min.key(),
        turned.z.max.key() == inner.z.max.key(),
{
    assert forall|i: int| 0 <= i < corners.len() implies inner.holds(#[trigger] corners[i]) by {}
    assert(inner.encloses(turned));
    assert(turned.holds(corners[0]));
    assert(turned.holds(corners[7]));
}

} // verus!
