//! Triples of scalars: positions, directions and colours.

use crate::scalar::Scalar;
use vstd::prelude::*;

verus! {

/// The pattern of `1e-8`, below which a component counts as zero.
pub const NEAR_ZERO_BITS: u64 = 0x3e45_798e_e230_8c3a;

/// Three scalars.
#[derive(Clone, Copy, Debug)]
pub struct Vec3 {
    pub e: [Scalar; 3],
}

/// A position.
pub type Point3 = Vec3;

impl Vec3 {
    /// The first component.
    pub open spec fn sx(self) -> Scalar {
        self.e[0]
    }

    /// The second component.
    pub open spec fn sy(self) -> Scalar {
        self.e[1]
    }

    /// The third component.
    pub open spec fn sz(self) -> Scalar {
        self.e[2]
    }

    /// Component `i`, the third for any index above 1.
    pub open spec fn axis(self, i: int) -> Scalar {
        if i == 0 {
            self.e[0]
        } else if i == 1 {
            self.e[1]
        } else {
            self.e[2]
        }
    }

    /// Whether no component is a pattern that is no number.
    pub open spec fn is_number(self) -> bool {
        !self.e[0].is_nan_spec() && !self.e[1].is_nan_spec() && !self.e[2].is_nan_spec()
    }

    /// The triple `(x, y, z)`.
    pub fn new(x: Scalar, y: Scalar, z: Scalar) -> (v: Vec3)
        ensures
            v.e[0] == x,
            v.e[1] == y,
            v.e[2] == z,
    {
        Vec3 { e: [x, y, z] }
    }

    /// A copy of `v`.
    pub fn copy(v: &Vec3) -> (c: Vec3)
        ensures
            c.e[0] == v.e[0],
            c.e[1] == v.e[1],
            c.e[2] == v.e[2],
    {
        Vec3 { e: [v.e[0], v.e[1], v.e[2]] }
    }

    /// The first component.
    pub fn x(&self) -> (s: Scalar)
        ensures
            s == self.e[0],
    {
        self.e[0]
    }

    /// The second component.
    pub fn y(&self) -> (s: Scalar)
        ensures
            s == self.e[1],
    {
        self.e[1]
    }

    /// The third component.
    pub fn z(&self) -> (s: Scalar)
        ensures
            s == self.e[2],
    {
        self.e[2]
    }

    /// Component `i`, the third for any index above 1.
    pub fn get(&self, i: usize) -> (s: Scalar)
        ensures
            s == self.axis(i as int),
    {
        if i == 0 {
            self.e[0]
        } else if i == 1 {
            self.e[1]
        } else {
            self.e[2]
        }
    }

    /// The opposite vector: every component changes its sign, nothing is rounded.
    pub fn neg(&self) -> (v: Vec3)
        ensures
            forall|i: int| 0 <= i < 3 ==> (#[trigger] v.e[i]) == self.e[i].neg_spec(),
            forall|i: int| 0 <= i < 3 ==> (#[trigger] v.e[i]).key() == -self.e[i].key(),
            forall|i: int|
                0 <= i < 3 ==> (#[trigger] v.e[i]).is_nan_spec() == self.e[i].is_nan_spec(),
    {
        Vec3 { e: [self.e[0].neg(), self.e[1].neg(), self.e[2].neg()] }
    }

    /// Whether every component is closer to zero than `1e-8`.
    pub fn near_zero(&self) -> (b: bool)
        ensures
            b == (forall|i: int|
                0 <= i < 3 ==> !(#[trigger] self.e[i]).is_nan_spec() && -(NEAR_ZERO_BITS as int)
                    < self.e[i].key() < NEAR_ZERO_BITS),
    {
        let eps = Scalar::positive(NEAR_ZERO_BITS);
        let b = self.e[0].abs().lt(eps) && self.e[1].abs().lt(eps) && self.e[2].abs().lt(eps);
        b
    }
}

impl Default for Vec3 {
    /// The zero vector.
    fn default() -> (v: Vec3)
        ensures
            forall|i: int| 0 <= i < 3 ==> (#[trigger] v.e[i]).bits == 0,
    {
        Vec3 { e: [Scalar::zero(), Scalar::zero(), Scalar::zero()] }
    }
}

} // verus!
