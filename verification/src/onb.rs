//! Orthonormal bases.

use crate::scalar::{Scalar, ONE_BITS};
use crate::vec3::Vec3;
use vstd::prelude::*;

verus! {

/// The pattern of `0.9`: a unit vector whose first component exceeds it in
/// size lies too close to the first axis to be crossed with it.
pub const ALIGNED_BITS: u64 = 0x3fec_cccc_cccc_cccd;

/// Three axes.
#[derive(Clone, Copy, Debug)]
pub struct Onb {
    pub axis: [Vec3; 3],
}

impl Onb {
    /// The first axis.
    pub fn u(&self) -> (a: &Vec3)
        ensures
            *a == self.axis[0],
    {
        &self.axis[0]
    }

    /// The second axis.
    pub fn v(&self) -> (a: &Vec3)
        ensures
            *a == self.axis[1],
    {
        &self.axis[1]
    }

    /// The third axis.
    pub fn w(&self) -> (a: &Vec3)
        ensures
            *a == self.axis[2],
    {
        &self.axis[2]
    }

    /// The axis to cross with the unit vector `unit_w` when a basis is built
    /// around it: the second axis of space where `unit_w` leans on the first
    /// by more than `0.9`, the first axis otherwise.
    pub fn helper_axis(unit_w: &Vec3) -> (a: Vec3)
        ensures
            a.e[2].bits == 0,
            (Scalar { bits: ALIGNED_BITS }).lt_spec(unit_w.e[0].abs_spec()) ==> a.e[0].bits == 0
                && a.e[1].bits == ONE_BITS,
            !(Scalar { bits: ALIGNED_BITS }).lt_spec(unit_w.e[0].abs_spec()) ==> a.e[0].bits
                == ONE_BITS && a.e[1].bits == 0,
    {
        if unit_w.x().abs().gt(Scalar::positive(ALIGNED_BITS)) {
            Vec3::new(Scalar::zero(), Scalar::one(), Scalar::zero())
        } else {
            Vec3::new(Scalar::one(), Scalar::zero(), Scalar::zero())
        }
    }

    /// The basis with the given axes.
    pub fn build_from_w(&mut self, u: Vec3, v: Vec3, unit_w: Vec3)
        ensures
            final(self).axis[0] == u,
            final(self).axis[1] == v,
            final(self).axis[2] == unit_w,
    {
        self.axis = [u, v, unit_w];
    }
}

impl Default for Onb {
    /// Three zero vectors.
    fn default() -> (b: Onb)
        ensures
            forall|k: int, i: int|
                0 <= k < 3 && 0 <= i < 3 ==> (#[trigger] b.axis[k].e[i]).bits == 0,
    {
        Onb { axis: [Vec3::default(), Vec3::default(), Vec3::default()] }
    }
}

} // verus!
