//! Triangles of a mesh.

use crate::aabb::{Aabb, PaddingPair};
use crate::hittable::{Crossing, HitRecord};
use crate::interval::Interval;
use crate::scalar::{Scalar, INFINITY_BITS, ONE_BITS};
use crate::vec3::{Point3, Vec3, NEAR_ZERO_BITS};
use vstd::prelude::*;

verus! {

/// A triangle with corners `p`, texture coordinates `tex` and normals `norm`
/// at the corners, and a material.  `pads` holds the paddings of the boxes
/// of the two edges that leave the first corner, the one to the second
/// corner first.
#[derive(Clone, Copy, Debug)]
pub struct Tria {
    pub p: [Point3; 3],
    pub tex: [(Scalar, Scalar); 3],
    pub norm: [Vec3; 3],
    pub mat: usize,
    pub bbox: Aabb,
    pub pads: PaddingPair,
}

impl Tria {
    /// The box of a triangle: the hull of the boxes of the two edges that
    /// leave its first corner, each padded.
    pub open spec fn box_of(p: [Point3; 3], pads: PaddingPair) -> Aabb {
        Aabb::hull(
            Aabb::diagonal(p[0], p[1]).padded(pads.first.extent, pads.first.widened),
            Aabb::diagonal(p[0], p[2]).padded(pads.second.extent, pads.second.widened),
        )
    }

    /// Whether the paddings of a triangle lose nothing: each widened box has
    /// numbers for bounds and encloses the box of its edge.
    pub open spec fn pads_fit(p: [Point3; 3], pads: PaddingPair) -> bool {
        &&& pads.first.widened.is_number()
        &&& pads.first.widened.encloses(Aabb::diagonal(p[0], p[1]))
        &&& pads.second.widened.is_number()
        &&& pads.second.widened.encloses(Aabb::diagonal(p[0], p[2]))
    }

    /// Whether index `i` points into the tables of a mesh with so many
    /// points, texture coordinates and normals.  A mesh may have no texture
    /// coordinates at all.
    pub open spec fn listed(points: usize, tex: usize, normals: usize, i: u32) -> bool {
        i < points && i < normals && (tex == 0 || i < tex)
    }

    /// Whether the point with weights `c1` and `c2` on the second and third
    /// corner, whose sum is `sum`, lies in the triangle: no weight is
    /// negative and the sum does not exceed one.  A weight that is no number
    /// puts the point outside.
    pub open spec fn inside(c1: Scalar, c2: Scalar, sum: Scalar) -> bool {
        &&& (Scalar { bits: 0 }).le_spec(c1)
        &&& (Scalar { bits: 0 }).le_spec(c2)
        &&& sum.le_spec(Scalar { bits: ONE_BITS })
    }

    /// Whether a ray with the given crossing of the plane meets the triangle
    /// inside `ray_t`.  `denom` is the determinant of the ray's direction
    /// and the two edges that leave the first corner: below `1e-8` in size
    /// the ray runs along the plane and misses.  Else the crossing must lie
    /// in `ray_t` at a finite parameter, and the point in the triangle.
    pub open spec fn meets(
        ray_t: Interval,
        denom: Scalar,
        at: Crossing,
        c1: Scalar,
        c2: Scalar,
        sum: Scalar,
    ) -> bool {
        &&& !denom.abs_spec().lt_spec(Scalar { bits: NEAR_ZERO_BITS })
        &&& ray_t.contains_spec(at.t)
        &&& at.t.magnitude() < INFINITY_BITS
        &&& Tria::inside(c1, c2, sum)
    }

    /// The triangle whose corners stand at `indices` in the mesh's table of
    /// points.  Its normals are taken from `normals` at the same places, and
    /// so are its texture coordinates from `tex`, unless the mesh has none:
    /// then they are zero.  Its box is padded with `pads`.
    pub fn new(
        points: &Vec<Vec3>,
        tex: &Vec<(Scalar, Scalar)>,
        normals: &Vec<Vec3>,
        indices: [usize; 3],
        mat: usize,
        pads: &PaddingPair,
    ) -> (tria: Tria)
        requires
            forall|k: int| 0 <= k < 3 ==> (#[trigger] indices[k]) < points.len(),
            forall|k: int| 0 <= k < 3 ==> (#[trigger] indices[k]) < normals.len(),
            tex.len() > 0 ==> forall|k: int| 0 <= k < 3 ==> (#[trigger] indices[k]) < tex.len(),
        ensures
            forall|k: int| 0 <= k < 3 ==> (#[trigger] tria.p[k]) == points[indices[k] as int],
            forall|k: int| 0 <= k < 3 ==> (#[trigger] tria.norm[k]) == normals[indices[k] as int],
            tex.len() > 0 ==> forall|k: int|
                0 <= k < 3 ==> (#[trigger] tria.tex[k]) == tex[indices[k] as int],
            tex.len() == 0 ==> forall|k: int|
                0 <= k < 3 ==> (#[trigger] tria.tex[k]).0.bits == 0 && tria.tex[k].1.bits == 0,
            tria.mat == mat,
            tria.pads == *pads,
            tria.bbox == Tria::box_of(tria.p, *pads),
    {
        let zero = (Scalar::zero(), Scalar::zero());
        let coords = if tex.len() == 0 {
            [zero, zero, zero]
        } else {
            [tex[indices[0]], tex[indices[1]], tex[indices[2]]]
        };
        let mut ret = Tria {
            p: [points[indices[0]], points[indices[1]], points[indices[2]]],
            tex: coords,
            norm: [normals[indices[0]], normals[indices[1]], normals[indices[2]]],
            mat,
            bbox: Aabb::universe(),
            pads: *pads,
        };
        ret.reset_bbox();
        ret
    }

    /// The triangles of a mesh.  `indices` lists the corners of the
    /// triangles, three for each, as places in the mesh's tables.  There is
    /// no mesh where the indices do not come in threes, where one of them
    /// points beyond a table, or where `pads` does not hold one pair of
    /// paddings for each triangle.
    pub fn mesh(
        points: &Vec<Vec3>,
        tex: &Vec<(Scalar, Scalar)>,
        normals: &Vec<Vec3>,
        indices: &Vec<u32>,
        mat: usize,
        pads: &Vec<PaddingPair>,
    ) -> (trias: Option<Vec<Tria>>)
        ensures
            trias is Some <==> indices.len() == 3 * pads.len() && forall|k: int|
                0 <= k < indices.len() ==> Tria::listed(
                    points.len(),
                    tex.len(),
                    normals.len(),
                    #[trigger] indices[k],
                ),
            trias matches Some(ts) ==> {
                &&& ts.len() * 3 == indices.len()
                &&& forall|n: int, k: int|
                    0 <= n < ts.len() && 0 <= k < 3 ==> {
                        &&& (#[trigger] ts[n].p[k]) == points[indices[3 * n + k] as int]
                        &&& ts[n].norm[k] == normals[indices[3 * n + k] as int]
                        &&& tex.len() > 0 ==> ts[n].tex[k] == tex[indices[3 * n + k] as int]
                    }
                &&& forall|n: int|
                    0 <= n < ts.len() ==> (#[trigger] ts[n]).mat == mat && ts[n].pads == pads[n]
                        && ts[n].bbox == Tria::box_of(ts[n].p, pads[n])
            },
    {
        if indices.len() % 3 != 0 {
            return None;
        }
        let count = indices.len() / 3;
        if pads.len() != count {
            return None;
        }
        let mut trias: Vec<Tria> = Vec::new();
        let mut n: usize = 0;
        while n < count
            invariant
                n <= count,
                count * 3 == indices.len(),
                trias.len() == n,
                forall|k: int|
                    0 <= k < 3 * n ==> Tria::listed(
                        points.len(),
                        tex.len(),
                        normals.len(),
                        #[trigger] indices[k],
                    ),
                forall|m: int, k: int|
                    0 <= m < n && 0 <= k < 3 ==> {
                        &&& (#[trigger] trias[m].p[k]) == points[indices[3 * m + k] as int]
                        &&& trias[m].norm[k] == normals[indices[3 * m + k] as int]
                        &&& tex.len() > 0 ==> trias[m].tex[k] == tex[indices[3 * m + k] as int]
                    },
                forall|m: int|
                    0 <= m < n ==> (#[trigger] trias[m]).mat == mat && trias[m].pads == pads[m]
                        && trias[m].bbox == Tria::box_of(trias[m].p, pads[m]),
                pads.len() == count,
            decreases count - n,
        {
            let a = indices[3 * n] as usize;
            let b = indices[3 * n + 1] as usize;
            let c = indices[3 * n + 2] as usize;
            let fits = |i: usize| -> (ok: bool)
                ensures
                    ok == (i < points.len() && i < normals.len() && (tex.len() == 0 || i
                        < tex.len())),
                { i < points.len() && i < normals.len() && (tex.len() == 0 || i < tex.len()) };
            if !(fits(a) && fits(b) && fits(c)) {
                assert(!Tria::listed(points.len(), tex.len(), normals.len(), indices[3 * n])
                    || !Tria::listed(
                    points.len(),
                    tex.len(),
                    normals.len(),
                    indices[3 * n + 1],
                ) || !Tria::listed(points.len(), tex.len(), normals.len(), indices[3 * n + 2]));
                return None;
            }
            let t = Tria::new(points, tex, normals, [a, b, c], mat, &pads[n]);
            trias.push(t);
            assert forall|k: int| 0 <= k < 3 * (n + 1) implies Tria::listed(
                points.len(),
                tex.len(),
                normals.len(),
                #[trigger] indices[k],
            ) by {
                if k >= 3 * n {
                    assert(k == 3 * n || k == 3 * n + 1 || k == 3 * n + 2);
                }
            }
            n = n + 1;
        }
        Some(trias)
    }

    /// Moves the triangle: its corners become `p`, its normals `norm` and
    /// its paddings `pads`, and its box is recomputed.
    pub fn set_position(&mut self, p: [Point3; 3], norm: [Vec3; 3], pads: &PaddingPair)
        ensures
            final(self).p == p,
            final(self).norm == norm,
            final(self).pads == *pads,
            final(self).tex == old(self).tex,
            final(self).mat == old(self).mat,
            final(self).bbox == Tria::box_of(p, *pads),
    {
        self.p = p;
        self.norm = norm;
        self.pads = *pads;
        self.reset_bbox();
    }

    /// Recomputes the box from the corners and the paddings.
    pub fn reset_bbox(&mut self)
        ensures
            final(self).p == old(self).p,
            final(self).norm == old(self).norm,
            final(self).tex == old(self).tex,
            final(self).mat == old(self).mat,
            final(self).pads == old(self).pads,
            final(self).bbox == Tria::box_of(old(self).p, old(self).pads),
    {
        self.bbox =
        Aabb::new_aabb(
            &Aabb::new_diagonal(
                self.p[0],
                self.p[1],
                &self.pads.first.extent,
                &self.pads.first.widened,
            ),
            &Aabb::new_diagonal(
                self.p[0],
                self.p[2],
                &self.pads.second.extent,
                &self.pads.second.widened,
            ),
        );
    }

    /// Where a ray meets the triangle inside `ray_t`.  `denom` is the
    /// determinant of the ray's direction and the two edges that leave the
    /// first corner; a ray for which it is smaller than `1e-8` runs along
    /// the plane and misses.  `at` is the crossing of the ray with the
    /// triangle's plane, with the normal and the texture coordinates blended
    /// from the corners; `c1` and `c2` are the weights of the second and
    /// third corner at that point and `sum` is their sum.  A hit lies at a
    /// finite parameter inside `ray_t`, at a point whose weights are not
    /// negative and add up to one at most; it lies in the triangle's box
    /// where the crossing does.
    pub fn hit(
        &self,
        ray_t: &Interval,
        denom: Scalar,
        at: &Crossing,
        c1: Scalar,
        c2: Scalar,
        sum: Scalar,
    ) -> (rec: Option<HitRecord>)
        ensures
            rec is Some <==> Tria::meets(*ray_t, denom, *at, c1, c2, sum),
            rec is Some ==> !denom.abs_spec().lt_spec(Scalar { bits: NEAR_ZERO_BITS }),
            rec matches Some(h) ==> {
                &&& at.recorded(self.mat, h)
                &&& ray_t.contains_spec(h.t)
                &&& self.bbox.holds(at.p) ==> self.bbox.holds(h.p)
                &&& h.t.magnitude() < INFINITY_BITS
                &&& !c1.is_nan_spec() && c1.key() >= 0
                &&& !c2.is_nan_spec() && c2.key() >= 0
                &&& !sum.is_nan_spec() && sum.key() <= ONE_BITS
            },
    {
        proof {
            crate::scalar::lemma_unsigned_pattern(ONE_BITS);
            crate::scalar::lemma_unsigned_pattern(0);
        }
        if denom.abs().lt(Scalar::positive(NEAR_ZERO_BITS)) {
            return None;
        }
        if !ray_t.contains(at.t) || !at.t.is_finite() {
            return None;
        }
        if !(c1.ge(Scalar::zero()) && c2.ge(Scalar::zero()) && sum.le(Scalar::one())) {
            return None;
        }
        Some(at.record(self.mat))
    }

    /// The box that holds the triangle.
    pub fn bounding_box(&self) -> (b: &Aabb)
        ensures
            *b == self.bbox,
    {
        &self.bbox
    }

    /// The box of a triangle holds its three corners, where the paddings
    /// lose nothing.
    pub proof fn lemma_box_holds_corners(p: [Point3; 3], pads: PaddingPair)
        requires
            p[0].is_number(),
            p[1].is_number(),
            p[2].is_number(),
            Tria::pads_fit(p, pads),
        ensures
            Tria::box_of(p, pads).is_number(),
            Tria::box_of(p, pads).holds(p[0]),
            Tria::box_of(p, pads).holds(p[1]),
            Tria::box_of(p, pads).holds(p[2]),
    {
        let first = Aabb::diagonal(p[0], p[1]);
        let second = Aabb::diagonal(p[0], p[2]);
        first.lemma_padded_encloses(pads.first.extent, pads.first.widened);
        second.lemma_padded_encloses(pads.second.extent, pads.second.widened);
        Aabb::lemma_hull_encloses(
            first.padded(pads.first.extent, pads.first.widened),
            second.padded(pads.second.extent, pads.second.widened),
        );
        assert(first.holds(p[0]) && first.holds(p[1]));
        assert(second.holds(p[2]));
    }
}

} // verus!
