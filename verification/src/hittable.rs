//! What an intersection reports.

use crate::scalar::Scalar;
use crate::vec3::{Point3, Vec3};
use vstd::prelude::*;

verus! {

/// The record of one intersection: where the ray met the surface, the unit
/// normal turned against the ray, the ray parameter `t`, the surface
/// coordinates `(u, v)`, which side was met, and the surface's material as
/// an index into the scene's table of materials.
#[derive(Clone, Copy, Debug)]
pub struct HitRecord {
    pub p: Point3,
    pub normal: Vec3,
    pub mat: usize,
    pub t: Scalar,
    pub u: Scalar,
    pub v: Scalar,
    pub front_face: bool,
}

/// Where a ray crosses the carrier of a surface, as worked out by the
/// caller: the ray parameter `t`, the point, the outward unit normal there,
/// the dot product `facing` of the ray's direction with that normal, and the
/// surface coordinates.
#[derive(Clone, Copy, Debug)]
pub struct Crossing {
    pub t: Scalar,
    pub p: Point3,
    pub outward_normal: Vec3,
    pub facing: Scalar,
    pub u: Scalar,
    pub v: Scalar,
}

impl Crossing {
    /// Whether the ray comes from outside: whether `facing` is negative.
    pub open spec fn front(self) -> bool {
        self.facing.lt_spec(Scalar { bits: 0 })
    }

    /// Whether `rec` is the record of this crossing on a surface of material
    /// `mat`: the same point, parameter and coordinates, and the normal
    /// turned against the ray.
    pub open spec fn recorded(self, mat: usize, rec: HitRecord) -> bool {
        &&& rec.p == self.p
        &&& rec.t == self.t
        &&& rec.u == self.u
        &&& rec.v == self.v
        &&& rec.mat == mat
        &&& rec.front_face == self.front()
        &&& self.front() ==> rec.normal == self.outward_normal
        &&& !self.front() ==> forall|i: int|
            0 <= i < 3 ==> (#[trigger] rec.normal.e[i]).bits == self.outward_normal.e[i].neg_spec().bits
    }

    /// The record of this crossing on a surface of material `mat`.
    pub fn record(&self, mat: usize) -> (rec: HitRecord)
        ensures
            self.recorded(mat, rec),
    {
        let mut rec = HitRecord::new(&self.p, &self.outward_normal, mat, self.t, false);
        rec.u = self.u;
        rec.v = self.v;
        rec.set_face_normal(self.facing, self.outward_normal);
        rec
    }
}

impl HitRecord {
    /// The order code of the ray parameter of a record, where there is one.
    pub open spec fn key_of(rec: Option<HitRecord>) -> Option<int> {
        match rec {
            Some(h) => Some(h.t.key()),
            None => None,
        }
    }

    /// A record at point `p` and parameter `t`, with surface coordinates zero.
    pub fn new(p: &Point3, normal: &Vec3, mat: usize, t: Scalar, front_face: bool) -> (rec:
        HitRecord)
        ensures
            rec.p == *p,
            rec.normal == *normal,
            rec.mat == mat,
            rec.t == t,
            rec.u.bits == 0,
            rec.v.bits == 0,
            rec.front_face == front_face,
    {
        HitRecord {
            p: *p,
            normal: *normal,
            mat,
            t,
            u: Scalar::zero(),
            v: Scalar::zero(),
            front_face,
        }
    }

    /// Turns the normal against the ray.  `facing` is the dot product of the
    /// ray's direction with `outward_normal`: where it is negative the ray
    /// meets the front face and the normal stays, otherwise it is reversed.
    pub fn set_face_normal(&mut self, facing: Scalar, outward_normal: Vec3)
        ensures
            final(self).front_face == facing.lt_spec(Scalar { bits: 0 }),
            final(self).front_face ==> final(self).normal == outward_normal,
            !final(self).front_face ==> forall|i: int|
                0 <= i < 3 ==> (#[trigger] final(self).normal.e[i]).bits
                    == outward_normal.e[i].neg_spec().bits,
            final(self).p == old(self).p,
            final(self).t == old(self).t,
            final(self).u == old(self).u,
            final(self).v == old(self).v,
            final(self).mat == old(self).mat,
    {
        self.front_face = facing.lt(Scalar::zero());
        self.normal = if self.front_face {
            outward_normal
        } else {
            outward_normal.neg()
        };
    }
}

} // verus!
