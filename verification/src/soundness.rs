//! Why what a list or a tree reports lies in its box.
//!
//! A list and a tree report what one of their surfaces has reported, and
//! their boxes hold the boxes of all their surfaces.  So where every surface
//! reports only points of its own box, at parameters of the range that it
//! was asked for, the same holds of the list and of the tree.

use crate::aabb::Aabb;
use crate::bvh::{boxes_are_numbers, considered, nearer, shrunk, BvhChild, BvhNode};
use crate::hittable::HitRecord;
use crate::hittable_list::{closest, list_hull, scanned, HittableList};
use crate::interval::Interval;
use vstd::prelude::*;

verus! {

/// Whether every surface of `ids` lands in its box: whatever intersection
/// `probe` reports for one of them lies in that surface's box, at a
/// parameter of the range that was asked for.
pub open spec fn lands<P: Fn(usize, Interval) -> Option<HitRecord>>(
    probe: &P,
    boxes: Seq<Aabb>,
    ids: Set<usize>,
) -> bool {
    forall|i: usize, iv: Interval, h: HitRecord|
        ids.contains(i) && #[trigger] call_ensures(probe, (i, iv), Some(h)) ==> boxes[i as int].holds(
            h.p,
        ) && iv.contains_spec(h.t)
}

/// Whether `h` is a record that `probe` has reported for a surface of `ids`
/// whose box holds the point of the record.
pub open spec fn reported<P: Fn(usize, Interval) -> Option<HitRecord>>(
    probe: &P,
    boxes: Seq<Aabb>,
    ids: Set<usize>,
    h: HitRecord,
) -> bool {
    exists|i: usize, iv: Interval|
        ids.contains(i) && #[trigger] call_ensures(probe, (i, iv), Some(h)) && boxes[i as int].holds(
            h.p,
        )
}

/// What a scan of a list reports lies in the list's box.  Take a list whose
/// box is the hull of its surfaces' boxes and surfaces that land in their
/// boxes.  Then an intersection that a scan reports is the record of one of
/// the surfaces, its point lies in the list's box and its parameter in the
/// range that was asked for.
pub proof fn lemma_scan_lands<P: Fn(usize, Interval) -> Option<HitRecord>>(
    boxes: Seq<Aabb>,
    n: nat,
    probe: &P,
    ray_t: Interval,
    rec: Option<HitRecord>,
)
    requires
        n <= boxes.len(),
        n <= usize::MAX,
        boxes_are_numbers(boxes),
        lands(probe, boxes, Set::new(|i: usize| i < n)),
        HittableList::scan_outcome(n, probe, ray_t, rec),
    ensures
        rec matches Some(h) ==> {
            &&& list_hull(boxes, n as int).holds(h.p)
            &&& ray_t.contains_spec(h.t)
            &&& reported(probe, boxes, Set::new(|i: usize| i < n), h)
        },
    decreases n,
{
    let ids = Set::new(|i: usize| i < n);
    if n > 0 {
        let (prev, cur): (Option<HitRecord>, Option<HitRecord>) = choose|
            prev: Option<HitRecord>,
            cur: Option<HitRecord>,
        |
            {
                &&& #[trigger] scanned(prev, cur)
                &&& HittableList::scan_outcome((n - 1) as nat, probe, ray_t, prev)
                &&& call_ensures(
                    probe,
                    ((n - 1) as usize, Interval { min: ray_t.min, max: closest(prev, ray_t) }),
                    cur,
                )
                &&& rec == if cur is Some {
                    cur
                } else {
                    prev
                }
            };
        let before = Set::new(|i: usize| i < (n - 1) as nat);
        assert(lands(probe, boxes, before)) by {
            assert forall|i: usize, iv: Interval, h: HitRecord|
                before.contains(i) && #[trigger] call_ensures(
                    probe,
                    (i, iv),
                    Some(h),
                ) implies boxes[i as int].holds(h.p) && iv.contains_spec(h.t) by {
                assert(ids.contains(i));
            }
        }
        lemma_scan_lands(boxes, (n - 1) as nat, probe, ray_t, prev);
        let last = (n - 1) as usize;
        let near = Interval { min: ray_t.min, max: closest(prev, ray_t) };
        match cur {
            Some(h) => {
                assert(ids.contains(last));
                assert(call_ensures(probe, (last, near), Some(h)));
                HittableList::lemma_hull_holds(boxes, n as int, last as int, h.p);
            },
            None => {
                if let Some(h) = prev {
                    let (i, iv): (usize, Interval) = choose|i: usize, iv: Interval|
                        before.contains(i) && #[trigger] call_ensures(probe, (i, iv), Some(h))
                            && boxes[i as int].holds(h.p);
                    assert(ids.contains(i));
                    HittableList::lemma_hull_holds(boxes, n as int, i as int, h.p);
                }
            },
        }
    }
}

/// What a walk below a child of a node reports lies in the child's box.
pub proof fn lemma_child_lands<S: Fn(Aabb) -> [Interval; 3], P: Fn(usize, Interval) -> Option<HitRecord>>(
    child: BvhChild,
    boxes: Seq<Aabb>,
    slabs: &S,
    probe: &P,
    ray_t: Interval,
    rec: Option<HitRecord>,
)
    requires
        child.wf(boxes),
        boxes_are_numbers(boxes),
        lands(probe, boxes, child.leaf_set()),
        child.outcome(slabs, probe, ray_t, rec),
    ensures
        rec matches Some(h) ==> {
            &&& child.bound(boxes).holds(h.p)
            &&& ray_t.contains_spec(h.t)
            &&& reported(probe, boxes, child.leaf_set(), h)
        },
    decreases child,
{
    match child {
        BvhChild::Leaf(i) => {
            if let Some(h) = rec {
                assert(child.leaf_set().contains(i));
                assert(call_ensures(probe, (i, ray_t), Some(h)));
            }
        },
        BvhChild::Node(n) => {
            lemma_walk_lands(*n, boxes, slabs, probe, ray_t, rec);
        },
    }
}

/// What a walk of a tree reports lies in the tree's box.  Take a tree whose
/// nodes hold the hulls of their children's boxes and surfaces that land in
/// their boxes.  Then an intersection that a walk reports is the record of
/// one of the surfaces below, its point lies in the tree's box and its
/// parameter in the range that was asked for.
pub proof fn lemma_walk_lands<S: Fn(Aabb) -> [Interval; 3], P: Fn(usize, Interval) -> Option<HitRecord>>(
    tree: BvhNode,
    boxes: Seq<Aabb>,
    slabs: &S,
    probe: &P,
    ray_t: Interval,
    rec: Option<HitRecord>,
)
    requires
        tree.wf(boxes),
        boxes_are_numbers(boxes),
        lands(probe, boxes, tree.leaf_set()),
        tree.outcome(slabs, probe, ray_t, rec),
    ensures
        rec matches Some(h) ==> {
            &&& tree.bbox.holds(h.p)
            &&& ray_t.contains_spec(h.t)
            &&& reported(probe, boxes, tree.leaf_set(), h)
        },
    decreases tree,
{
    let (cr, l, r): ([Interval; 3], Option<HitRecord>, Option<HitRecord>) = choose|
        cr: [Interval; 3],
        l: Option<HitRecord>,
        r: Option<HitRecord>,
    |
        {
            &&& #[trigger] considered(cr, l, r)
            &&& call_ensures(slabs, (tree.bbox,), cr)
            &&& if !Aabb::hit_spec(cr, ray_t) {
                rec is None
            } else {
                &&& tree.left.outcome(slabs, probe, ray_t, l)
                &&& match l {
                    Some(lh) => {
                        &&& tree.right.outcome(slabs, probe, shrunk(ray_t, lh), r)
                        &&& rec == Some(nearer(lh, r))
                    },
                    None => tree.right.outcome(slabs, probe, ray_t, r) && rec == r,
                }
            }
        };
    if Aabb::hit_spec(cr, ray_t) {
        let ls = tree.left.leaf_set();
        let rs = tree.right.leaf_set();
        assert(lands(probe, boxes, ls)) by {
            assert forall|i: usize, iv: Interval, h: HitRecord|
                ls.contains(i) && #[trigger] call_ensures(probe, (i, iv), Some(h)) implies boxes[i as int].holds(
                h.p,
            ) && iv.contains_spec(h.t) by {
                assert(tree.leaf_set().contains(i));
            }
        }
        assert(lands(probe, boxes, rs)) by {
            assert forall|i: usize, iv: Interval, h: HitRecord|
                rs.contains(i) && #[trigger] call_ensures(probe, (i, iv), Some(h)) implies boxes[i as int].holds(
                h.p,
            ) && iv.contains_spec(h.t) by {
                assert(tree.leaf_set().contains(i));
            }
        }
        lemma_child_lands(tree.left, boxes, slabs, probe, ray_t, l);
        match l {
            Some(lh) => {
                lemma_child_lands(tree.right, boxes, slabs, probe, shrunk(ray_t, lh), r);
            },
            None => {
                lemma_child_lands(tree.right, boxes, slabs, probe, ray_t, r);
            },
        }
        if let Some(h) = rec {
            let (i, iv): (usize, Interval) = if reported(probe, boxes, ls, h) {
                choose|i: usize, iv: Interval|
                    ls.contains(i) && #[trigger] call_ensures(probe, (i, iv), Some(h))
                        && boxes[i as int].holds(h.p)
            } else {
                choose|i: usize, iv: Interval|
                    rs.contains(i) && #[trigger] call_ensures(probe, (i, iv), Some(h))
                        && boxes[i as int].holds(h.p)
            };
            assert(tree.leaf_set().contains(i));
            assert(call_ensures(probe, (i, iv), Some(h)));
            tree.lemma_box_holds(boxes, i, h.p);
        }
    }
}

} // verus!
