//! Rays: a starting point, a direction and the moment within the shutter
//! interval at which the ray is cast.

use crate::scalar::Scalar;
use crate::vec3::{Point3, Vec3};
use vstd::prelude::*;

verus! {

/// A ray cast from `orig` along `dir` at shutter time `tm`.
#[derive(Clone, Copy, Debug)]
pub struct Ray {
    pub orig: Point3,
    pub dir: Vec3,
    pub tm: Scalar,
}

impl Ray {
    /// The ray from `origin` along `direction` at time `tm`.
    pub fn new(origin: Point3, direction: Vec3, tm: Scalar) -> (r: Ray)
        ensures
            r.orig == origin,
            r.dir == direction,
            r.tm == tm,
    {
        Ray { orig: origin, dir: direction, tm }
    }

    /// The ray from `origin` along `direction` at time zero.
    pub fn _new_0(origin: Point3, direction: Vec3) -> (r: Ray)
        ensures
            r.orig == origin,
            r.dir == direction,
            r.tm.bits == 0,
    {
        Ray { orig: origin, dir: direction, tm: Scalar::zero() }
    }

    /// Where the ray starts.
    pub fn origin(&self) -> (p: &Point3)
        ensures
            *p == self.orig,
    {
        &self.orig
    }

    /// Where the ray heads.
    pub fn direction(&self) -> (d: &Vec3)
        ensures
            *d == self.dir,
    {
        &self.dir
    }

    /// The moment within the shutter interval.
    pub fn time(&self) -> (t: Scalar)
        ensures
            t == self.tm,
    {
        self.tm
    }
}

impl Default for Ray {
    /// The ray that starts at the origin, heads nowhere and is cast at time zero.
    fn default() -> (r: Ray)
        ensures
            forall|i: int| 0 <= i < 3 ==> (#[trigger] r.orig.e[i]).bits == 0,
            forall|i: int| 0 <= i < 3 ==> (#[trigger] r.dir.e[i]).bits == 0,
            r.tm.bits == 0,
    {
        Ray { orig: Vec3::default(), dir: Vec3::default(), tm: Scalar::zero() }
    }
}

} // verus!
