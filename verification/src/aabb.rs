//! Axis-aligned bounding boxes.

use crate::interval::Interval;
use crate::scalar::Scalar;
use crate::vec3::{Point3, Vec3};
use vstd::prelude::*;

verus! {

/// A box with sides along the axes: one range per axis.
#[derive(Clone, Copy, Debug)]
pub struct Aabb {
    pub x: Interval,
    pub y: Interval,
    pub z: Interval,
}

/// What it takes to pad a box, worked out by the caller: the extents of the
/// box along the three axes, and the box with every range widened by the
/// least thickness, half of it at either end.
#[derive(Clone, Copy, Debug)]
pub struct Padding {
    pub extent: Vec3,
    pub widened: Aabb,
}

/// The paddings of the two boxes whose hull is the box of a flat surface.
#[derive(Clone, Copy, Debug)]
pub struct PaddingPair {
    pub first: Padding,
    pub second: Padding,
}

/// One step of the slab test: `iv` cut down to the part between the two
/// crossings `c.min` and `c.max`, which may come in either order.
pub open spec fn narrow(iv: Interval, c: Interval) -> Interval {
    let near = if c.max.le_spec(c.min) {
        c.max
    } else {
        c.min
    };
    let far = if c.max.le_spec(c.min) {
        c.min
    } else {
        c.max
    };
    Interval { min: iv.min.max_spec(near), max: iv.max.min_spec(far) }
}

/// Whether a narrowed range still holds more than a point.
pub open spec fn open_range(iv: Interval) -> bool {
    !iv.max.le_spec(iv.min)
}

/// The larger of two order codes.
pub open spec fn max_key(a: int, b: int) -> int {
    if a >= b {
        a
    } else {
        b
    }
}

/// The smaller of two order codes.
pub open spec fn min_key(a: int, b: int) -> int {
    if a <= b {
        a
    } else {
        b
    }
}

impl Aabb {
    /// Whether all six bounds are numbers.
    pub open spec fn is_number(self) -> bool {
        self.x.is_number() && self.y.is_number() && self.z.is_number()
    }

    /// The range along axis `n`: `y` for 1, `z` for 2, `x` for anything else.
    pub open spec fn axis(self, n: int) -> Interval {
        if n == 1 {
            self.y
        } else if n == 2 {
            self.z
        } else {
            self.x
        }
    }

    /// The least box that holds both `a` and `b`.
    pub open spec fn hull(a: Aabb, b: Aabb) -> Aabb {
        Aabb {
            x: Interval::hull(a.x, b.x),
            y: Interval::hull(a.y, b.y),
            z: Interval::hull(a.z, b.z),
        }
    }

    /// Whether `other` lies inside `self`, axis by axis.
    pub open spec fn encloses(self, other: Aabb) -> bool {
        self.x.encloses(other.x) && self.y.encloses(other.y) && self.z.encloses(other.z)
    }

    /// Whether the two boxes have the same bounds as numbers.
    pub open spec fn same_bounds(self, other: Aabb) -> bool {
        &&& self.x.min.key() == other.x.min.key()
        &&& self.x.max.key() == other.x.max.key()
        &&& self.y.min.key() == other.y.min.key()
        &&& self.y.max.key() == other.y.max.key()
        &&& self.z.min.key() == other.z.min.key()
        &&& self.z.max.key() == other.z.max.key()
    }

    /// The order code of the lower bound of the box along axis `n`, or of
    /// the upper one.
    pub open spec fn side(self, n: int, upper: bool) -> int {
        if upper {
            self.axis(n).max.key()
        } else {
            self.axis(n).min.key()
        }
    }

    /// Whether the point lies inside the box.
    pub open spec fn holds(self, p: Point3) -> bool {
        self.x.contains_spec(p.e[0]) && self.y.contains_spec(p.e[1]) && self.z.contains_spec(
            p.e[2],
        )
    }

    /// The box with opposite corners `a` and `b`, before it is padded.
    pub open spec fn diagonal(a: Point3, b: Point3) -> Aabb {
        Aabb {
            x: Interval { min: a.e[0].min_spec(b.e[0]), max: a.e[0].max_spec(b.e[0]) },
            y: Interval { min: a.e[1].min_spec(b.e[1]), max: a.e[1].max_spec(b.e[1]) },
            z: Interval { min: a.e[2].min_spec(b.e[2]), max: a.e[2].max_spec(b.e[2]) },
        }
    }

    /// The box padded: along each axis whose extent is below the least
    /// thickness, the range of `widened` takes the place of its own.
    pub open spec fn padded(self, extent: Vec3, widened: Aabb) -> Aabb {
        Aabb {
            x: self.x.pad_spec(extent.e[0], widened.x),
            y: self.y.pad_spec(extent.e[1], widened.y),
            z: self.z.pad_spec(extent.e[2], widened.z),
        }
    }

    /// The box grown to hold the point `p`.  A coordinate that is no number
    /// moves no bound.
    pub open spec fn grown(self, p: Point3) -> Aabb {
        Aabb {
            x: Interval { min: self.x.min.min_spec(p.e[0]), max: self.x.max.max_spec(p.e[0]) },
            y: Interval { min: self.y.min.min_spec(p.e[1]), max: self.y.max.max_spec(p.e[1]) },
            z: Interval { min: self.z.min.min_spec(p.e[2]), max: self.z.max.max_spec(p.e[2]) },
        }
    }

    /// The least box that holds the first `n` of the points, before it is
    /// padded: the empty box grown by one point after the other.
    pub open spec fn extent_of(points: Seq<Point3>, n: int) -> Aabb
        decreases n,
    {
        if n <= 0 {
            Aabb::empty_spec()
        } else {
            Aabb::extent_of(points, n - 1).grown(points[n - 1])
        }
    }

    /// Whether all the points have numbers for coordinates.
    pub open spec fn all_numbers(points: Seq<Point3>) -> bool {
        forall|i: int| 0 <= i < points.len() ==> (#[trigger] points[i]).is_number()
    }

    /// The box that holds nothing.
    pub open spec fn empty_spec() -> Aabb {
        let e = Interval { min: Scalar::infinity_spec(), max: Scalar::neg_infinity_spec() };
        Aabb { x: e, y: e, z: e }
    }

    /// The slab test on three pairs of crossings: the ray meets the box
    /// inside `ray_t` when the range survives the narrowing on every axis.
    pub open spec fn hit_spec(crossings: [Interval; 3], ray_t: Interval) -> bool {
        let n0 = narrow(ray_t, crossings[0]);
        let n1 = narrow(n0, crossings[1]);
        let n2 = narrow(n1, crossings[2]);
        open_range(n0) && open_range(n1) && open_range(n2)
    }

    /// The axis of the greatest extent: 0 where `x` exceeds both others, else
    /// 1 where `y` exceeds `z`, else 2.
    pub open spec fn longest_axis_spec(extent: Vec3) -> i32 {
        if extent.e[1].lt_spec(extent.e[0]) {
            if extent.e[2].lt_spec(extent.e[0]) {
                0
            } else {
                2
            }
        } else if extent.e[2].lt_spec(extent.e[1]) {
            1
        } else {
            2
        }
    }

    /// The box with the three ranges, padded: no side is left thinner than
    /// `0.0001`.  `extent` holds the lengths of the three ranges and
    /// `widened` the ranges widened; along each axis whose extent is below
    /// the least thickness, the widened range is taken.
    pub fn new(x: Interval, y: Interval, z: Interval, extent: &Vec3, widened: &Aabb) -> (b: Aabb)
        ensures
            b.x == x.pad_spec(extent.e[0], widened.x),
            b.y == y.pad_spec(extent.e[1], widened.y),
            b.z == z.pad_spec(extent.e[2], widened.z),
    {
        let mut ret = Aabb { x, y, z };
        ret.pad_to_minimums(extent, widened);
        ret
    }

    /// The box that holds nothing.
    pub fn empty() -> (b: Aabb)
        ensures
            b == Aabb::empty_spec(),
            b.is_number(),
            forall|o: Aabb| o.is_number() ==> #[trigger] Aabb::hull(b, o) == o,
    {
        let e = Interval::empty();
        let b = Aabb { x: e, y: e, z: e };
        proof {
            Scalar::lemma_key_bounds(e.min);
        }
        assert forall|o: Aabb| o.is_number() implies #[trigger] Aabb::hull(b, o) == o by {
            Scalar::lemma_key_bounds(o.x.min);
            Scalar::lemma_key_bounds(o.x.max);
            Scalar::lemma_key_bounds(o.y.min);
            Scalar::lemma_key_bounds(o.y.max);
            Scalar::lemma_key_bounds(o.z.min);
            Scalar::lemma_key_bounds(o.z.max);
            Aabb::lemma_extreme_patterns(o.x);
            Aabb::lemma_extreme_patterns(o.y);
            Aabb::lemma_extreme_patterns(o.z);
        }
        b
    }

    /// The box that holds every point.
    pub fn universe() -> (b: Aabb)
        ensures
            b.x == (Interval { min: Scalar::neg_infinity_spec(), max: Scalar::infinity_spec() }),
            b.y == b.x,
            b.z == b.x,
    {
        let u = Interval::universe();
        Aabb { x: u, y: u, z: u }
    }

    /// The box with opposite corners `a` and `b`, given in any order, padded:
    /// no side is left thinner than `0.0001`.  `extent` holds the distances
    /// of the corners along the three axes and `widened` the box between the
    /// corners with every range widened; along each axis whose extent is
    /// below the least thickness, the widened range is taken.  Where the
    /// widened box encloses the box between the corners, the padded box
    /// holds both corners.
    pub fn new_diagonal(a: Point3, b: Point3, extent: &Vec3, widened: &Aabb) -> (r: Aabb)
        ensures
            r.x == (Interval { min: a.e[0].min_spec(b.e[0]), max: a.e[0].max_spec(b.e[0]) }).pad_spec(
                extent.e[0],
                widened.x,
            ),
            r.y == (Interval { min: a.e[1].min_spec(b.e[1]), max: a.e[1].max_spec(b.e[1]) }).pad_spec(
                extent.e[1],
                widened.y,
            ),
            r.z == (Interval { min: a.e[2].min_spec(b.e[2]), max: a.e[2].max_spec(b.e[2]) }).pad_spec(
                extent.e[2],
                widened.z,
            ),
            r == Aabb::diagonal(a, b).padded(*extent, *widened),
            a.is_number() && b.is_number() && widened.is_number() && widened.encloses(
                Aabb::diagonal(a, b),
            ) ==> r.is_number() && r.holds(a) && r.holds(b),
    {
        let mut ret = Aabb {
            x: Interval::new(a.x().min(b.x()), a.x().max(b.x())),
            y: Interval::new(a.y().min(b.y()), a.y().max(b.y())),
            z: Interval::new(a.z().min(b.z()), a.z().max(b.z())),
        };
        ret.pad_to_minimums(extent, widened);
        ret
    }

    /// The least box that holds both `a` and `b`.
    pub fn new_aabb(a: &Aabb, b: &Aabb) -> (r: Aabb)
        ensures
            r == Aabb::hull(*a, *b),
    {
        Aabb {
            x: Interval::new_interval(&a.x, &b.x),
            y: Interval::new_interval(&a.y, &b.y),
            z: Interval::new_interval(&a.z, &b.z),
        }
    }

    /// The range along axis `n`: `y` for 1, `z` for 2, `x` for anything else.
    pub fn axis_interval(&self, n: i32) -> (iv: &Interval)
        ensures
            *iv == self.axis(n as int),
    {
        if n == 1 {
            &self.y
        } else if n == 2 {
            &self.z
        } else {
            &self.x
        }
    }

    /// The slab test.  `crossings[a]` holds the two ray parameters at which
    /// the ray crosses the planes that bound the box along axis `a`, in any
    /// order.  The ray meets the box inside `ray_t` when, axis after axis,
    /// the part of `ray_t` between the crossings keeps more than a point.
    pub fn hit(crossings: &[Interval; 3], ray_t: &Interval) -> (b: bool)
        ensures
            b == Aabb::hit_spec(*crossings, *ray_t),
    {
        let mut lo = ray_t.min;
        let mut hi = ray_t.max;
        let mut axis: usize = 0;
        while axis < 3
            invariant
                axis <= 3,
                axis == 0 ==> lo == ray_t.min && hi == ray_t.max,
                axis == 1 ==> (Interval { min: lo, max: hi }) == narrow(*ray_t, crossings[0])
                    && open_range(narrow(*ray_t, crossings[0])),
                axis == 2 ==> (Interval { min: lo, max: hi }) == narrow(
                    narrow(*ray_t, crossings[0]),
                    crossings[1],
                ) && open_range(narrow(*ray_t, crossings[0])) && open_range(
                    narrow(narrow(*ray_t, crossings[0]), crossings[1]),
                ),
                axis == 3 ==> Aabb::hit_spec(*crossings, *ray_t),
            decreases 3 - axis,
        {
            let c = crossings[axis];
            let mut t0 = c.min;
            let mut t1 = c.max;
            if t0.ge(t1) {
                t0 = c.max;
                t1 = c.min;
            }
            lo = lo.max(t0);
            hi = hi.min(t1);
            if hi.le(lo) {
                return false;
            }
            axis = axis + 1;
        }
        true
    }

    /// The axis along which the box is longest, from its three extents:
    /// 0 where `x` exceeds both others, else 1 where `y` exceeds `z`, else 2.
    pub fn longest_axis(extent: &Vec3) -> (axis: i32)
        ensures
            axis == Aabb::longest_axis_spec(*extent),
            0 <= axis <= 2,
            extent.is_number() ==> forall|i: int|
                0 <= i < 3 ==> (#[trigger] extent.e[i]).key() <= extent.axis(axis as int).key(),
    {
        if extent.x().gt(extent.y()) {
            if extent.x().gt(extent.z()) {
                0
            } else {
                2
            }
        } else if extent.y().gt(extent.z()) {
            1
        } else {
            2
        }
    }

    /// Keeps no side thinner than `0.0001`: along each axis whose extent is
    /// below that, the range is replaced by the one of `widened`.
    pub fn pad_to_minimums(&mut self, extent: &Vec3, widened: &Aabb)
        ensures
            final(self).x == old(self).x.pad_spec(extent.e[0], widened.x),
            final(self).y == old(self).y.pad_spec(extent.e[1], widened.y),
            final(self).z == old(self).z.pad_spec(extent.e[2], widened.z),
    {
        let x = self.x.pad(extent.x(), &widened.x);
        let y = self.y.pad(extent.y(), &widened.y);
        let z = self.z.pad(extent.z(), &widened.z);
        self.x = x;
        self.y = y;
        self.z = z;
    }

    /// One of the eight corners: along each axis the upper bound where the
    /// flag is set, the lower bound where it is not.
    pub fn corner(&self, upper_x: bool, upper_y: bool, upper_z: bool) -> (p: Point3)
        ensures
            p.e[0] == if upper_x { self.x.max } else { self.x.min },
            p.e[1] == if upper_y { self.y.max } else { self.y.min },
            p.e[2] == if upper_z { self.z.max } else { self.z.min },
    {
        Vec3::new(
            if upper_x { self.x.max } else { self.x.min },
            if upper_y { self.y.max } else { self.y.min },
            if upper_z { self.z.max } else { self.z.min },
        )
    }

    /// The least box that holds all the points: the extent of a transformed
    /// box's corners, before it is padded.  With no point it is the empty
    /// box.  A coordinate that is no number moves no bound.
    pub fn enclosing(points: &Vec<Point3>) -> (b: Aabb)
        ensures
            b == Aabb::extent_of(points@, points.len() as int),
            b.is_number(),
            points.len() == 0 ==> b == Aabb::empty_spec(),
            Aabb::all_numbers(points@) ==> forall|i: int|
                0 <= i < points.len() ==> b.holds(#[trigger] points[i]),
            Aabb::all_numbers(points@) ==> forall|o: Aabb|
                o.is_number() && (forall|i: int| 0 <= i < points.len() ==> o.holds(#[trigger] points[i]))
                    ==> #[trigger] o.encloses(b),
    {
        let mut b = Aabb::empty();
        let mut k: usize = 0;
        proof {
            Scalar::lemma_key_bounds(b.x.min);
        }
        while k < points.len()
            invariant
                k <= points.len(),
                b == Aabb::extent_of(points@, k as int),
                b.is_number(),
                Aabb::all_numbers(points@) ==> (k > 0 ==> b.x.min.key() <= b.x.max.key()
                    && b.y.min.key() <= b.y.max.key() && b.z.min.key() <= b.z.max.key()),
                Aabb::all_numbers(points@) ==> forall|i: int|
                    0 <= i < k ==> b.holds(#[trigger] points[i]),
                k == 0 ==> b == Aabb::empty_spec(),
                Aabb::all_numbers(points@) ==> forall|o: Aabb|
                    o.is_number() && (forall|i: int| 0 <= i < k ==> o.holds(#[trigger] points[i]))
                        ==> #[trigger] o.encloses(b),
            decreases points.len() - k,
        {
            let p = points[k];
            let ghost before = b;
            proof {
                Scalar::lemma_key_bounds(p.e[0]);
                Scalar::lemma_key_bounds(p.e[1]);
                Scalar::lemma_key_bounds(p.e[2]);
            }
            b =
            Aabb {
                x: Interval::new(b.x.min.min(p.x()), b.x.max.max(p.x())),
                y: Interval::new(b.y.min.min(p.y()), b.y.max.max(p.y())),
                z: Interval::new(b.z.min.min(p.z()), b.z.max.max(p.z())),
            };
            proof {
                if Aabb::all_numbers(points@) {
                    assert(points[k as int].is_number());
                    assert forall|i: int| 0 <= i < k + 1 implies b.holds(#[trigger] points[i]) by {
                        if i < k {
                            assert(before.holds(points[i]));
                        }
                    }
                    assert forall|o: Aabb|
                        o.is_number() && (forall|i: int|
                            0 <= i < k + 1 ==> o.holds(#[trigger] points[i])) implies #[trigger] o.encloses(
                        b,
                    ) by {
                        assert(o.holds(points[k as int]));
                        assert(o.encloses(before));
                    }
                }
            }
            k = k + 1;
        }
        b
    }

    /// Padding loses nothing, where the widened box encloses the box: the
    /// padded box encloses it too, and so holds every point that it holds.
    pub proof fn lemma_padded_encloses(self, extent: Vec3, widened: Aabb)
        requires
            self.is_number(),
            widened.is_number(),
            widened.encloses(self),
        ensures
            self.padded(extent, widened).is_number(),
            self.padded(extent, widened).encloses(self),
            forall|p: Point3| self.holds(p) ==> #[trigger] self.padded(extent, widened).holds(p),
    {
    }

    /// The hull of the empty box and another box is the other box.
    pub proof fn lemma_hull_with_empty(o: Aabb)
        requires
            o.is_number(),
        ensures
            Aabb::hull(Aabb::empty_spec(), o) == o,
    {
        Aabb::lemma_extreme_patterns(o.x);
        Aabb::lemma_extreme_patterns(o.y);
        Aabb::lemma_extreme_patterns(o.z);
        Scalar::lemma_key_bounds(o.x.min);
    }

    /// Both infinities are numbers, and no number lies beyond them.
    pub proof fn lemma_extreme_patterns(iv: Interval)
        requires
            iv.is_number(),
        ensures
            Scalar::infinity_spec().min_spec(iv.min) == iv.min,
            Scalar::neg_infinity_spec().max_spec(iv.max) == iv.max,
    {
        Scalar::lemma_key_bounds(iv.min);
        Scalar::lemma_key_bounds(iv.max);
        if iv.min.key() == Scalar::infinity_spec().key() {
            Scalar::lemma_key_injective(iv.min, Scalar::infinity_spec());
        }
        if iv.max.key() == Scalar::neg_infinity_spec().key() {
            Scalar::lemma_key_injective(iv.max, Scalar::neg_infinity_spec());
        }
    }

    /// The hull of two boxes holds both, and every point that either holds.
    pub proof fn lemma_hull_encloses(a: Aabb, b: Aabb)
        requires
            a.is_number(),
            b.is_number(),
        ensures
            Aabb::hull(a, b).is_number(),
            Aabb::hull(a, b).encloses(a),
            Aabb::hull(a, b).encloses(b),
            forall|p: Point3| a.holds(p) || b.holds(p) ==> #[trigger] Aabb::hull(a, b).holds(p),
    {
        Interval::lemma_hull_encloses(a.x, b.x);
        Interval::lemma_hull_encloses(a.y, b.y);
        Interval::lemma_hull_encloses(a.z, b.z);
    }

    /// Enclosure carries over: what holds a box holds all that the box holds.
    pub proof fn lemma_encloses_transitive(a: Aabb, b: Aabb, c: Aabb)
        requires
            a.encloses(b),
            b.encloses(c),
        ensures
            a.encloses(c),
    {
    }

    /// Narrowing a range of numbers by crossings that are numbers: the near
    /// end moves up to the earlier crossing, the far end down to the later.
    #[verifier::rlimit(40)]
    pub proof fn lemma_narrow_keys(iv: Interval, c: Interval)
        requires
            iv.is_number(),
            c.is_number(),
        ensures
            narrow(iv, c).is_number(),
            narrow(iv, c).min.key() == max_key(iv.min.key(), min_key(c.min.key(), c.max.key())),
            narrow(iv, c).max.key() == min_key(iv.max.key(), max_key(c.min.key(), c.max.key())),
            open_range(narrow(iv, c)) == (narrow(iv, c).min.key() < narrow(iv, c).max.key()),
    {
    }

    /// For crossings and bounds that are numbers, the slab test says whether
    /// the latest entry lies before the earliest exit.
    #[verifier::rlimit(40)]
    pub proof fn lemma_hit_is_overlap(crossings: [Interval; 3], ray_t: Interval)
        requires
            ray_t.is_number(),
            crossings[0].is_number(),
            crossings[1].is_number(),
            crossings[2].is_number(),
        ensures
            Aabb::hit_spec(crossings, ray_t) == overlap(
                ray_t.min.key(),
                ray_t.max.key(),
                min_key(crossings[0].min.key(), crossings[0].max.key()),
                max_key(crossings[0].min.key(), crossings[0].max.key()),
                min_key(crossings[1].min.key(), crossings[1].max.key()),
                max_key(crossings[1].min.key(), crossings[1].max.key()),
                min_key(crossings[2].min.key(), crossings[2].max.key()),
                max_key(crossings[2].min.key(), crossings[2].max.key()),
            ),
    {
        let n0 = narrow(ray_t, crossings[0]);
        let n1 = narrow(n0, crossings[1]);
        let n2 = narrow(n1, crossings[2]);
        Aabb::lemma_narrow_keys(ray_t, crossings[0]);
        Aabb::lemma_narrow_keys(n0, crossings[1]);
        Aabb::lemma_narrow_keys(n1, crossings[2]);
        let a0 = min_key(crossings[0].min.key(), crossings[0].max.key());
        let a1 = min_key(crossings[1].min.key(), crossings[1].max.key());
        let a2 = min_key(crossings[2].min.key(), crossings[2].max.key());
        let b0 = max_key(crossings[0].min.key(), crossings[0].max.key());
        let b1 = max_key(crossings[1].min.key(), crossings[1].max.key());
        let b2 = max_key(crossings[2].min.key(), crossings[2].max.key());
        assert(n2.min.key() == max_key(max_key(ray_t.min.key(), a0), max_key(a1, a2)));
        assert(n2.max.key() == min_key(min_key(ray_t.max.key(), b0), min_key(b1, b2)));
        assert(Aabb::hit_spec(crossings, ray_t) == (open_range(n0) && open_range(n1)
            && open_range(n2)));
        assert(n0.min.key() <= n1.min.key() <= n2.min.key());
        assert(n2.max.key() <= n1.max.key() <= n0.max.key());
    }
}

/// Whether the latest of four entries lies before the earliest of four
/// exits.
pub open spec fn overlap(
    lo: int,
    hi: int,
    a0: int,
    b0: int,
    a1: int,
    b1: int,
    a2: int,
    b2: int,
) -> bool {
    max_key(max_key(lo, a0), max_key(a1, a2)) < min_key(min_key(hi, b0), min_key(b1, b2))
}

/// An overlap stays one when entries move earlier and exits later.
pub proof fn lemma_overlap_grows(
    lo: int,
    hi: int,
    a0: int,
    b0: int,
    a1: int,
    b1: int,
    a2: int,
    b2: int,
    c0: int,
    d0: int,
    c1: int,
    d1: int,
    c2: int,
    d2: int,
)
    requires
        overlap(lo, hi, a0, b0, a1, b1, a2, b2),
        c0 <= a0 && c1 <= a1 && c2 <= a2,
        b0 <= d0 && b1 <= d1 && b2 <= d2,
    ensures
        overlap(lo, hi, c0, d0, c1, d1, c2, d2),
{
}

impl Aabb {
    /// The slab test grows with the crossings: where on every axis the
    /// crossings `wide` lie around the crossings `tight`, a ray that passes
    /// the test with `tight` passes it with `wide`.
    #[verifier::rlimit(40)]
    pub proof fn lemma_hit_grows(tight: [Interval; 3], wide: [Interval; 3], ray_t: Interval)
        requires
            ray_t.is_number(),
            forall|a: int| 0 <= a < 3 ==> (#[trigger] tight[a]).is_number() && wide[a].is_number(),
            forall|a: int|
                0 <= a < 3 ==> min_key((#[trigger] wide[a]).min.key(), wide[a].max.key()) <= min_key(
                    tight[a].min.key(),
                    tight[a].max.key(),
                ) && max_key(tight[a].min.key(), tight[a].max.key()) <= max_key(
                    wide[a].min.key(),
                    wide[a].max.key(),
                ),
            Aabb::hit_spec(tight, ray_t),
        ensures
            Aabb::hit_spec(wide, ray_t),
    {
        assert(tight[0].is_number() && tight[1].is_number() && tight[2].is_number());
        assert(wide[0].is_number() && wide[1].is_number() && wide[2].is_number());
        Aabb::lemma_hit_is_overlap(tight, ray_t);
        Aabb::lemma_hit_is_overlap(wide, ray_t);
        let a0 = min_key(tight[0].min.key(), tight[0].max.key());
        let b0 = max_key(tight[0].min.key(), tight[0].max.key());
        let a1 = min_key(tight[1].min.key(), tight[1].max.key());
        let b1 = max_key(tight[1].min.key(), tight[1].max.key());
        let a2 = min_key(tight[2].min.key(), tight[2].max.key());
        let b2 = max_key(tight[2].min.key(), tight[2].max.key());
        let c0 = min_key(wide[0].min.key(), wide[0].max.key());
        let d0 = max_key(wide[0].min.key(), wide[0].max.key());
        let c1 = min_key(wide[1].min.key(), wide[1].max.key());
        let d1 = max_key(wide[1].min.key(), wide[1].max.key());
        let c2 = min_key(wide[2].min.key(), wide[2].max.key());
        let d2 = max_key(wide[2].min.key(), wide[2].max.key());
        assert(c0 <= a0 && b0 <= d0);
        assert(c1 <= a1 && b1 <= d1);
        assert(c2 <= a2 && b2 <= d2);
        lemma_overlap_grows(
            ray_t.min.key(),
            ray_t.max.key(),
            a0,
            b0,
            a1,
            b1,
            a2,
            b2,
            c0,
            d0,
            c1,
            d1,
            c2,
            d2,
        );
    }
}

impl Default for Aabb {
    /// The box that holds every point.
    fn default() -> (b: Aabb)
        ensures
            b.x == (Interval { min: Scalar::neg_infinity_spec(), max: Scalar::infinity_spec() }),
            b.y == b.x,
            b.z == b.x,
    {
        Aabb::universe()
    }
}

} // verus!
