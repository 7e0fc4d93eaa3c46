//! A plain list of surfaces.

use crate::aabb::Aabb;
use crate::hittable::HitRecord;
use crate::interval::Interval;
use crate::sampling::random_below;
use crate::scalar::Scalar;
use crate::vec3::Point3;
use vstd::prelude::*;

verus! {

/// The surfaces of a scene or a group, each known by its bounding box and by
/// its place in the list, together with the box that holds them all.
#[derive(Debug)]
pub struct HittableList {
    pub objects: Vec<Aabb>,
    pub bbox: Aabb,
}

/// The hull of the first `n` boxes.
pub open spec fn list_hull(boxes: Seq<Aabb>, n: int) -> Aabb
    decreases n,
{
    if n <= 0 {
        Aabb::empty_spec()
    } else {
        Aabb::hull(list_hull(boxes, n - 1), boxes[n - 1])
    }
}

/// The far end of the range that is still searched once `best` is the
/// nearest intersection so far.
pub open spec fn closest(best: Option<HitRecord>, ray_t: Interval) -> Scalar {
    match best {
        Some(h) => h.t,
        None => ray_t.max,
    }
}

/// Marks the two records that one step of a scan goes through: the best so
/// far and the answer of the surface probed.
pub open spec fn scanned(prev: Option<HitRecord>, cur: Option<HitRecord>) -> bool {
    true
}

impl HittableList {
    /// Whether the stored box is the hull of the surfaces' boxes.
    pub open spec fn wf(self) -> bool {
        self.bbox == list_hull(self.objects@, self.objects.len() as int)
    }

    /// What a scan of the first `n` surfaces may return, given the answers
    /// that `probe` may give.  The scan goes through the surfaces in order;
    /// each is probed between the near end of `ray_t` and the nearest
    /// intersection found so far, and an intersection that it reports
    /// becomes the nearest.
    pub open spec fn scan_outcome<P: Fn(usize, Interval) -> Option<HitRecord>>(
        n: nat,
        probe: &P,
        ray_t: Interval,
        rec: Option<HitRecord>,
    ) -> bool
        decreases n,
    {
        if n == 0 {
            rec is None
        } else {
            exists|prev: Option<HitRecord>, cur: Option<HitRecord>|
                {
                    &&& #[trigger] scanned(prev, cur)
                    &&& Self::scan_outcome((n - 1) as nat, probe, ray_t, prev)
                    &&& call_ensures(
                        probe,
                        ((n - 1) as usize, Interval { min: ray_t.min, max: closest(prev, ray_t) }),
                        cur,
                    )
                    &&& rec == if cur is Some {
                        cur
                    } else {
                        prev
                    }
                }
        }
    }

    /// The list without surfaces.  Its box holds nothing.
    pub fn new() -> (list: HittableList)
        ensures
            list.objects@.len() == 0,
            list.bbox == Aabb::empty_spec(),
            list.wf(),
    {
        HittableList { objects: Vec::new(), bbox: Aabb::empty() }
    }

    /// How many surfaces the list holds.
    pub fn len(&self) -> (n: usize)
        ensures
            n == self.objects.len(),
    {
        self.objects.len()
    }

    /// Appends a surface, given by its box, and widens the list's box to
    /// hold it.
    pub fn add(&mut self, object: Aabb)
        requires
            old(self).wf(),
        ensures
            final(self).objects@ == old(self).objects@.push(object),
            final(self).bbox == Aabb::hull(old(self).bbox, object),
            final(self).wf(),
    {
        self.bbox = Aabb::new_aabb(&self.bbox, &object);
        self.objects.push(object);
        proof {
            let before = old(self).objects@;
            let after = self.objects@;
            Self::lemma_hull_prefix(before, after, before.len() as int);
        }
    }

    /// Removes every surface.
    pub fn clear(&mut self)
        ensures
            final(self).objects@.len() == 0,
            final(self).bbox == Aabb::empty_spec(),
            final(self).wf(),
    {
        self.objects.clear();
        self.bbox = Aabb::empty();
    }

    /// The box that holds every surface of the list.
    pub fn bounding_box(&self) -> (b: &Aabb)
        ensures
            *b == self.bbox,
    {
        &self.bbox
    }

    /// The nearest intersection of a ray with the surfaces of the list inside
    /// `ray_t`.  `probe(i, range)` meets the ray with surface `i` inside
    /// `range`.  The surfaces are probed in order, each between the near end
    /// of `ray_t` and the nearest intersection found so far, so that what is
    /// returned is the last intersection reported.
    pub fn hit<P: Fn(usize, Interval) -> Option<HitRecord>>(&self, ray_t: &Interval, probe: &P) -> (rec:
        Option<HitRecord>)
        requires
            forall|i: usize, iv: Interval| i < self.objects.len() ==> call_requires(probe, (i, iv)),
        ensures
            Self::scan_outcome(self.objects.len() as nat, probe, *ray_t, rec),
    {
        let mut rec: Option<HitRecord> = None;
        let mut closest_so_far = ray_t.max;
        let n = self.objects.len();
        let mut i: usize = 0;
        while i < n
            invariant
                i <= n,
                n == self.objects.len(),
                forall|k: usize, iv: Interval| k < n ==> call_requires(probe, (k, iv)),
                Self::scan_outcome(i as nat, probe, *ray_t, rec),
                closest_so_far == closest(rec, *ray_t),
            decreases n - i,
        {
            let ghost prev = rec;
            let cur = probe(i, Interval::new(ray_t.min, closest_so_far));
            if let Some(temp_rec) = cur {
                closest_so_far = temp_rec.t;
                rec = Some(temp_rec);
            }
            assert(scanned(prev, cur));
            i = i + 1;
        }
        rec
    }

    /// The place of a surface of the list drawn at random, or nothing where
    /// the list is empty.
    pub fn random(&self) -> (pick: Option<usize>)
        ensures
            pick is Some <==> self.objects.len() > 0,
            pick matches Some(i) ==> i < self.objects.len(),
    {
        let int_size = self.objects.len();
        if int_size == 0 {
            None
        } else {
            Some(random_below(int_size))
        }
    }

    /// The hull of a prefix does not depend on what follows the prefix.
    pub proof fn lemma_hull_prefix(a: Seq<Aabb>, b: Seq<Aabb>, n: int)
        requires
            n <= a.len(),
            n <= b.len(),
            forall|i: int| 0 <= i < n ==> a[i] == b[i],
        ensures
            list_hull(a, n) == list_hull(b, n),
        decreases n,
    {
        if n > 0 {
            Self::lemma_hull_prefix(a, b, n - 1);
        }
    }

    /// The hull of the first `n` boxes holds each of them, and so every
    /// point that one of them holds.
    pub proof fn lemma_hull_holds(boxes: Seq<Aabb>, n: int, i: int, p: Point3)
        requires
            0 <= i < n <= boxes.len(),
            forall|k: int| 0 <= k < boxes.len() ==> (#[trigger] boxes[k]).is_number(),
            boxes[i].holds(p),
        ensures
            list_hull(boxes, n).is_number(),
            list_hull(boxes, n).encloses(boxes[i]),
            list_hull(boxes, n).holds(p),
        decreases n,
    {
        Self::lemma_hull_is_number(boxes, n - 1);
        Aabb::lemma_hull_encloses(list_hull(boxes, n - 1), boxes[n - 1]);
        if i < n - 1 {
            Self::lemma_hull_holds(boxes, n - 1, i, p);
            Aabb::lemma_encloses_transitive(
                list_hull(boxes, n),
                list_hull(boxes, n - 1),
                boxes[i],
            );
        }
    }

    /// The hull of boxes whose bounds are numbers has numbers for bounds.
    pub proof fn lemma_hull_is_number(boxes: Seq<Aabb>, n: int)
        requires
            n <= boxes.len(),
            forall|k: int| 0 <= k < boxes.len() ==> (#[trigger] boxes[k]).is_number(),
        ensures
            list_hull(boxes, n).is_number(),
        decreases n,
    {
        if n > 0 {
            Self::lemma_hull_is_number(boxes, n - 1);
            Aabb::lemma_hull_encloses(list_hull(boxes, n - 1), boxes[n - 1]);
        } else {
            Scalar::lemma_key_bounds(Scalar::infinity_spec());
        }
    }
}

impl Default for HittableList {
    /// The list without surfaces.
    fn default() -> (list: HittableList)
        ensures
            list.objects@.len() == 0,
            list.bbox == Aabb::empty_spec(),
            list.wf(),
    {
        HittableList::new()
    }
}

} // verus!
