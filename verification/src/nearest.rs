//! Why the hierarchy finds what a plain scan finds.
//!
//! A walk of the tree and a scan of the list put the same questions to the
//! same surfaces, in another order and over other ranges.  Both end with the
//! nearest intersection, provided that each surface answers as a surface
//! does and that no box hides a surface below it.  This module states those
//! two provisos and proves the agreement.
//!
//! The provisos speak of a ray and the near end of a range, which stay the
//! same throughout, and of a table `reach`: `reach(i, c)` is the order code
//! of the ray parameter at which surface `i` meets the ray when it is asked
//! between that near end and the far end with order code `c`, or nothing
//! where it does not meet the ray there.

use crate::aabb::Aabb;
use crate::bvh::{considered, nearer, shrunk, BvhChild, BvhNode};
use crate::hittable::HitRecord;
use crate::hittable_list::{closest, scanned, HittableList};
use crate::interval::Interval;
use crate::scalar::Scalar;
use vstd::prelude::*;

verus! {

/// Whether `out` is the answer that the table gives for surface `i` asked up
/// to `c`: an intersection at the parameter with order code `reach(i, c)`,
/// or none where the table has none.
pub open spec fn answers(
    reach: spec_fn(usize, int) -> Option<int>,
    i: usize,
    c: int,
    out: Option<HitRecord>,
) -> bool {
    match reach(i, c) {
        Some(k) => out matches Some(h) && !h.t.is_nan_spec() && h.t.key() == k,
        None => out is None,
    }
}

/// How the answers of one surface over two ranges hang together, the nearer
/// range ending at `c` and the farther at `d`.  An intersection found in the
/// nearer range lies inside it and is the one found in the farther range;
/// one found in the farther range, if it lies before `c`, is found in the
/// nearer range too.
pub open spec fn steady(reach: spec_fn(usize, int) -> Option<int>, i: usize, c: int, d: int) -> bool {
    &&& reach(i, c) matches Some(k) ==> k <= c && reach(i, d) == Some(k)
    &&& reach(i, d) matches Some(k) ==> k < c ==> reach(i, c) == Some(k)
}

/// Whether the surfaces `ids` hang together over all ranges that end at or
/// before `top`.
pub open spec fn steady_up_to(reach: spec_fn(usize, int) -> Option<int>, ids: Set<usize>, top: int)
    -> bool {
    forall|i: usize, c: int, d: int|
        ids.contains(i) && c <= d <= top ==> #[trigger] steady(reach, i, c, d)
}

/// Whether `probe` answers as surfaces do.  For every surface of `ids` and
/// every range that starts at `lo` and ends at or before `top`, whatever the
/// probe returns is the intersection at `reach`, and the answers over
/// different ranges hang together.
pub open spec fn lawful<P: Fn(usize, Interval) -> Option<HitRecord>>(
    probe: &P,
    reach: spec_fn(usize, int) -> Option<int>,
    ids: Set<usize>,
    lo: Scalar,
    top: int,
) -> bool {
    &&& forall|i: usize, iv: Interval, out: Option<HitRecord>|
        ids.contains(i) && iv.min == lo && !iv.max.is_nan_spec() && iv.max.key() <= top
            && #[trigger] call_ensures(probe, (i, iv), out) ==> answers(
            reach,
            i,
            iv.max.key(),
            out,
        )
    &&& steady_up_to(reach, ids, top)
}

/// Whether `res` is the nearest of the intersections that the surfaces
/// `ids` reach when asked up to `c`.
pub open spec fn is_best(
    reach: spec_fn(usize, int) -> Option<int>,
    ids: Set<usize>,
    c: int,
    res: Option<int>,
) -> bool {
    match res {
        Some(k) => {
            &&& exists|i: usize| ids.contains(i) && #[trigger] reach(i, c) == Some(k)
            &&& forall|i: usize|
                ids.contains(i) ==> (#[trigger] reach(i, c) matches Some(j) ==> k <= j)
        },
        None => forall|i: usize| ids.contains(i) ==> #[trigger] reach(i, c) is None,
    }
}

impl BvhChild {
    /// Whether no box below hides a surface: see `BvhNode::unhidden`.
    pub open spec fn unhidden<S: Fn(Aabb) -> [Interval; 3]>(
        self,
        slabs: &S,
        reach: spec_fn(usize, int) -> Option<int>,
        lo: Scalar,
        top: int,
    ) -> bool
        decreases self,
    {
        match self {
            BvhChild::Leaf(_) => true,
            BvhChild::Node(n) => n.unhidden(slabs, reach, lo, top),
        }
    }
}

impl BvhNode {
    /// Whether no box hides a surface.  At this node and at every node
    /// below: where the slab test on the crossings that `slabs` gives for
    /// the node's box fails for a range, no surface below the node reaches
    /// the ray in that range.
    pub open spec fn unhidden<S: Fn(Aabb) -> [Interval; 3]>(
        self,
        slabs: &S,
        reach: spec_fn(usize, int) -> Option<int>,
        lo: Scalar,
        top: int,
    ) -> bool
        decreases self,
    {
        &&& forall|c: [Interval; 3], iv: Interval, i: usize|
            call_ensures(slabs, (self.bbox,), c) && iv.min == lo && !iv.max.is_nan_spec()
                && iv.max.key() <= top && !(#[trigger] Aabb::hit_spec(c, iv))
                && #[trigger] self.leaf_set().contains(i) ==> reach(i, iv.max.key()) is None
        &&& self.left.unhidden(slabs, reach, lo, top)
        &&& self.right.unhidden(slabs, reach, lo, top)
    }
}

/// The order code of a ray parameter, where there is one.
pub open spec fn code_of(t: Option<Scalar>) -> Option<int> {
    match t {
        Some(x) => Some(x.key()),
        None => None,
    }
}

/// A sphere answers steadily.  For a ray whose quadratic has the roots
/// `near` and `far` in this order, take two ranges that start at `lo`, the
/// one ending at `c` and the other further on at `d`.  The root chosen in
/// the nearer range lies inside it and is the root chosen in the farther
/// range; and the root chosen in the farther range, if it lies before `c`,
/// is chosen in the nearer range too.
pub proof fn lemma_sphere_is_steady(
    discriminant: Scalar,
    near: Scalar,
    far: Scalar,
    lo: Scalar,
    c: Scalar,
    d: Scalar,
)
    requires
        !near.is_nan_spec() && !far.is_nan_spec(),
        !lo.is_nan_spec() && !c.is_nan_spec() && !d.is_nan_spec(),
        near.key() <= far.key(),
        c.key() <= d.key(),
    ensures
        ({
            let in_c = code_of(
                crate::sphere::Sphere::root(discriminant, near, far, Interval { min: lo, max: c }),
            );
            let in_d = code_of(
                crate::sphere::Sphere::root(discriminant, near, far, Interval { min: lo, max: d }),
            );
            &&& in_c matches Some(k) ==> k <= c.key() && in_d == Some(k)
            &&& in_d matches Some(k) ==> k < c.key() ==> in_c == Some(k)
        }),
{
}

/// A flat surface answers steadily.  A parallelogram or a triangle meets a
/// ray at one parameter `t` or not at all, whatever the range; take two
/// ranges that start at `lo`, the one ending at `c` and the other further on
/// at `d`.  A crossing reported in the nearer range lies inside it and is
/// reported in the farther range; and a crossing reported in the farther
/// range, if it lies before `c`, is reported in the nearer range too.
pub proof fn lemma_flat_is_steady(t: Scalar, lo: Scalar, c: Scalar, d: Scalar)
    requires
        !lo.is_nan_spec() && !c.is_nan_spec() && !d.is_nan_spec(),
        c.key() <= d.key(),
    ensures
        ({
            let in_c = (Interval { min: lo, max: c }).contains_spec(t);
            let in_d = (Interval { min: lo, max: d }).contains_spec(t);
            &&& in_c ==> t.key() <= c.key() && in_d
            &&& in_d && t.key() < c.key() ==> in_c
        }),
{
}

/// Whether `slabs` has an answer for box `b`.
pub open spec fn has_answer<S: Fn(Aabb) -> [Interval; 3]>(slabs: &S, b: Aabb) -> bool {
    exists|c: [Interval; 3]| #[trigger] call_ensures(slabs, (b,), c)
}

/// Whether the slab test grows with the box: a ray that meets a box inside
/// a range, going by the crossings that `slabs` gives, meets every box that
/// encloses the first inside that range.
pub open spec fn monotone<S: Fn(Aabb) -> [Interval; 3]>(slabs: &S, lo: Scalar, top: int) -> bool {
    forall|a: Aabb, b: Aabb, ca: [Interval; 3], cb: [Interval; 3], iv: Interval|
        b.encloses(a) && #[trigger] call_ensures(slabs, (a,), ca) && #[trigger] call_ensures(
            slabs,
            (b,),
            cb,
        ) && iv.min == lo && !iv.max.is_nan_spec() && iv.max.key() <= top
            && #[trigger] Aabb::hit_spec(ca, iv) ==> Aabb::hit_spec(cb, iv)
}

/// Whether every surface of `ids` lies in its box: where the surface reaches
/// the ray inside a range, the ray meets the surface's box inside that
/// range, going by the crossings that `slabs` gives.
pub open spec fn boxed<S: Fn(Aabb) -> [Interval; 3]>(
    slabs: &S,
    reach: spec_fn(usize, int) -> Option<int>,
    boxes: Seq<Aabb>,
    ids: Set<usize>,
    lo: Scalar,
    top: int,
) -> bool {
    forall|i: usize, c: [Interval; 3], iv: Interval|
        ids.contains(i) && #[trigger] call_ensures(slabs, (boxes[i as int],), c) && iv.min == lo
            && !iv.max.is_nan_spec() && iv.max.key() <= top && reach(i, iv.max.key()) is Some
            ==> #[trigger] Aabb::hit_spec(c, iv)
}

/// Boxes that hold their surfaces hide none of them.  Take a tree whose
/// nodes hold the hulls of their children's boxes, surfaces that lie in
/// their boxes, and a slab test that has an answer for every box and grows
/// with the box.  Then no box of the tree hides a surface below it.
pub proof fn lemma_sound_boxes_hide_nothing<S: Fn(Aabb) -> [Interval; 3]>(
    tree: BvhNode,
    boxes: Seq<Aabb>,
    slabs: &S,
    reach: spec_fn(usize, int) -> Option<int>,
    lo: Scalar,
    top: int,
)
    requires
        tree.wf(boxes),
        crate::bvh::boxes_are_numbers(boxes),
        forall|b: Aabb| #[trigger] has_answer(slabs, b),
        monotone(slabs, lo, top),
        boxed(slabs, reach, boxes, tree.leaf_set(), lo, top),
    ensures
        tree.unhidden(slabs, reach, lo, top),
    decreases tree,
{
    assert forall|c: [Interval; 3], iv: Interval, i: usize|
        call_ensures(slabs, (tree.bbox,), c) && iv.min == lo && !iv.max.is_nan_spec()
            && iv.max.key() <= top && !(#[trigger] Aabb::hit_spec(c, iv))
            && #[trigger] tree.leaf_set().contains(i) implies reach(i, iv.max.key()) is None by {
        if reach(i, iv.max.key()) is Some {
            let own = boxes[i as int];
            assert(has_answer(slabs, own));
            let ca = choose|ca: [Interval; 3]| #[trigger] call_ensures(slabs, (own,), ca);
            assert(Aabb::hit_spec(ca, iv));
            lemma_leaf_is_listed(tree, boxes, i);
            tree.lemma_encloses_leaf(boxes, i);
            assert(Aabb::hit_spec(c, iv));
        }
    }
    match tree.left {
        BvhChild::Leaf(_) => {},
        BvhChild::Node(n) => {
            lemma_sound_boxes_hide_nothing(*n, boxes, slabs, reach, lo, top);
        },
    }
    match tree.right {
        BvhChild::Leaf(_) => {},
        BvhChild::Node(n) => {
            lemma_sound_boxes_hide_nothing(*n, boxes, slabs, reach, lo, top);
        },
    }
}

/// A surface below a tree names a box.
pub proof fn lemma_leaf_is_listed(tree: BvhNode, boxes: Seq<Aabb>, i: usize)
    requires
        tree.wf(boxes),
        tree.leaf_set().contains(i),
    ensures
        i < boxes.len(),
    decreases tree,
{
    if tree.left.leaf_set().contains(i) {
        match tree.left {
            BvhChild::Leaf(_) => {},
            BvhChild::Node(n) => {
                lemma_leaf_is_listed(*n, boxes, i);
            },
        }
    } else {
        match tree.right {
            BvhChild::Leaf(_) => {},
            BvhChild::Node(n) => {
                lemma_leaf_is_listed(*n, boxes, i);
            },
        }
    }
}

/// The nearest of two groups, the second asked only up to the best of the
/// first: the second group's best where it lies strictly before, else the
/// first group's.
pub proof fn lemma_merge(
    reach: spec_fn(usize, int) -> Option<int>,
    left: Set<usize>,
    right: Set<usize>,
    c: int,
    top: int,
    kl: int,
    rres: Option<int>,
)
    requires
        steady_up_to(reach, left.union(right), top),
        kl <= c <= top,
        is_best(reach, left, c, Some(kl)),
        is_best(reach, right, kl, rres),
    ensures
        is_best(
            reach,
            left.union(right),
            c,
            Some(
                match rres {
                    Some(kr) => if kr < kl {
                        kr
                    } else {
                        kl
                    },
                    None => kl,
                },
            ),
        ),
{
    let both = left.union(right);
    let pick = match rres {
        Some(kr) => if kr < kl {
            kr
        } else {
            kl
        },
        None => kl,
    };
    if rres is Some && rres->0 < kl {
        let kr = rres->0;
        let w = choose|i: usize| right.contains(i) && #[trigger] reach(i, kl) == Some(kr);
        assert(steady(reach, w, kl, c));
        assert(both.contains(w) && reach(w, c) == Some(pick));
    } else {
        let w = choose|i: usize| left.contains(i) && #[trigger] reach(i, c) == Some(kl);
        assert(both.contains(w) && reach(w, c) == Some(pick));
    }
    assert forall|i: usize| both.contains(i) implies (#[trigger] reach(i, c) matches Some(j)
        ==> pick <= j) by {
        if let Some(j) = reach(i, c) {
            if right.contains(i) && j < kl {
                assert(steady(reach, i, kl, c));
                assert(reach(i, kl) == Some(j));
            }
        }
    }
}

/// The nearest of two groups of which the first reaches nothing.
pub proof fn lemma_merge_none(
    reach: spec_fn(usize, int) -> Option<int>,
    left: Set<usize>,
    right: Set<usize>,
    c: int,
    rres: Option<int>,
)
    requires
        is_best(reach, left, c, None),
        is_best(reach, right, c, rres),
    ensures
        is_best(reach, left.union(right), c, rres),
{
    let both = left.union(right);
    if let Some(kr) = rres {
        let w = choose|i: usize| right.contains(i) && #[trigger] reach(i, c) == Some(kr);
        assert(both.contains(w) && reach(w, c) == Some(kr));
    }
}

/// A group of steady surfaces is steady as a whole: the nearest of their
/// intersections over a nearer and a farther range hang together as the
/// answers of one surface do.  So a list or a tree of surfaces may itself
/// stand as a surface in another list or tree.
pub proof fn lemma_best_is_steady(
    reach: spec_fn(usize, int) -> Option<int>,
    ids: Set<usize>,
    top: int,
    c: int,
    d: int,
    in_c: Option<int>,
    in_d: Option<int>,
)
    requires
        steady_up_to(reach, ids, top),
        c <= d <= top,
        is_best(reach, ids, c, in_c),
        is_best(reach, ids, d, in_d),
    ensures
        in_c matches Some(k) ==> k <= c && in_d == Some(k),
        in_d matches Some(k) ==> k < c ==> in_c == Some(k),
{
    if let Some(k) = in_c {
        let w = choose|i: usize| ids.contains(i) && #[trigger] reach(i, c) == Some(k);
        assert(steady(reach, w, c, d));
        assert(reach(w, d) == Some(k));
        match in_d {
            Some(j) => {
                let v = choose|i: usize| ids.contains(i) && #[trigger] reach(i, d) == Some(j);
                assert(steady(reach, v, c, d));
                if j < k {
                    assert(reach(v, c) == Some(j));
                }
            },
            None => {},
        }
    }
    if let Some(j) = in_d {
        if j < c {
            let v = choose|i: usize| ids.contains(i) && #[trigger] reach(i, d) == Some(j);
            assert(steady(reach, v, c, d));
            assert(reach(v, c) == Some(j));
            match in_c {
                Some(k) => {
                    let w = choose|i: usize| ids.contains(i) && #[trigger] reach(i, c) == Some(k);
                    assert(steady(reach, w, c, d));
                },
                None => {},
            }
        }
    }
}

/// There is one nearest intersection at most.
pub proof fn lemma_best_is_unique(
    reach: spec_fn(usize, int) -> Option<int>,
    ids: Set<usize>,
    c: int,
    a: Option<int>,
    b: Option<int>,
)
    requires
        is_best(reach, ids, c, a),
        is_best(reach, ids, c, b),
    ensures
        a == b,
{
    if let Some(ka) = a {
        let w = choose|i: usize| ids.contains(i) && #[trigger] reach(i, c) == Some(ka);
        assert(reach(w, c) is Some);
    }
    if let Some(kb) = b {
        let w = choose|i: usize| ids.contains(i) && #[trigger] reach(i, c) == Some(kb);
        assert(reach(w, c) is Some);
    }
}

/// A walk below a child ends with the nearest intersection of the surfaces
/// below it.
pub proof fn lemma_child_best<S: Fn(Aabb) -> [Interval; 3], P: Fn(usize, Interval) -> Option<HitRecord>>(
    child: BvhChild,
    slabs: &S,
    probe: &P,
    reach: spec_fn(usize, int) -> Option<int>,
    top: int,
    iv: Interval,
    rec: Option<HitRecord>,
)
    requires
        lawful(probe, reach, child.leaf_set(), iv.min, top),
        child.unhidden(slabs, reach, iv.min, top),
        !iv.max.is_nan_spec(),
        iv.max.key() <= top,
        child.outcome(slabs, probe, iv, rec),
    ensures
        is_best(reach, child.leaf_set(), iv.max.key(), HitRecord::key_of(rec)),
        rec matches Some(h) ==> !h.t.is_nan_spec() && h.t.key() <= iv.max.key(),
    decreases child,
{
    match child {
        BvhChild::Leaf(i) => {
            let c = iv.max.key();
            assert(child.leaf_set().contains(i));
            assert(call_ensures(probe, (i, iv), rec));
            assert(answers(reach, i, c, rec));
            assert(steady(reach, i, c, c));
        },
        BvhChild::Node(n) => {
            lemma_node_best(*n, slabs, probe, reach, top, iv, rec);
        },
    }
}

/// A walk from a node ends with the nearest intersection of the surfaces
/// below it.
pub proof fn lemma_node_best<S: Fn(Aabb) -> [Interval; 3], P: Fn(usize, Interval) -> Option<HitRecord>>(
    node: BvhNode,
    slabs: &S,
    probe: &P,
    reach: spec_fn(usize, int) -> Option<int>,
    top: int,
    iv: Interval,
    rec: Option<HitRecord>,
)
    requires
        lawful(probe, reach, node.leaf_set(), iv.min, top),
        node.unhidden(slabs, reach, iv.min, top),
        !iv.max.is_nan_spec(),
        iv.max.key() <= top,
        node.outcome(slabs, probe, iv, rec),
    ensures
        is_best(reach, node.leaf_set(), iv.max.key(), HitRecord::key_of(rec)),
        rec matches Some(h) ==> !h.t.is_nan_spec() && h.t.key() <= iv.max.key(),
    decreases node,
{
    let c = iv.max.key();
    let lset = node.left.leaf_set();
    let rset = node.right.leaf_set();
    let (cr, l, r): ([Interval; 3], Option<HitRecord>, Option<HitRecord>) = choose|
        cr: [Interval; 3],
        l: Option<HitRecord>,
        r: Option<HitRecord>,
    |
        {
            &&& #[trigger] considered(cr, l, r)
            &&& call_ensures(slabs, (node.bbox,), cr)
            &&& if !Aabb::hit_spec(cr, iv) {
                rec is None
            } else {
                &&& node.left.outcome(slabs, probe, iv, l)
                &&& match l {
                    Some(lh) => {
                        &&& node.right.outcome(slabs, probe, shrunk(iv, lh), r)
                        &&& rec == Some(nearer(lh, r))
                    },
                    None => node.right.outcome(slabs, probe, iv, r) && rec == r,
                }
            }
        };
    if !Aabb::hit_spec(cr, iv) {
        assert forall|i: usize| node.leaf_set().contains(i) implies #[trigger] reach(i, c) is None by {
            assert(reach(i, iv.max.key()) is None);
        }
    } else {
        assert(lawful(probe, reach, lset, iv.min, top));
        assert(lawful(probe, reach, rset, iv.min, top));
        lemma_child_best(node.left, slabs, probe, reach, top, iv, l);
        match l {
            Some(lh) => {
                let near = shrunk(iv, lh);
                lemma_child_best(node.right, slabs, probe, reach, top, near, r);
                lemma_merge(reach, lset, rset, c, top, lh.t.key(), HitRecord::key_of(r));
            },
            None => {
                lemma_child_best(node.right, slabs, probe, reach, top, iv, r);
                lemma_merge_none(reach, lset, rset, c, HitRecord::key_of(r));
            },
        }
    }
}

/// The surfaces in the first `n` places of a list.
pub open spec fn first(n: nat) -> Set<usize> {
    Set::new(|i: usize| i < n)
}

/// A scan of the first `n` surfaces of a list ends with the nearest of their
/// intersections.
pub proof fn lemma_scan_best<P: Fn(usize, Interval) -> Option<HitRecord>>(
    n: nat,
    probe: &P,
    reach: spec_fn(usize, int) -> Option<int>,
    ray_t: Interval,
    rec: Option<HitRecord>,
)
    requires
        n <= usize::MAX,
        lawful(probe, reach, first(n), ray_t.min, ray_t.max.key()),
        !ray_t.max.is_nan_spec(),
        HittableList::scan_outcome(n, probe, ray_t, rec),
    ensures
        is_best(reach, first(n), ray_t.max.key(), HitRecord::key_of(rec)),
        rec matches Some(h) ==> !h.t.is_nan_spec() && h.t.key() <= ray_t.max.key(),
    decreases n,
{
    let top = ray_t.max.key();
    if n > 0 {
        let (prev, cur): (Option<HitRecord>, Option<HitRecord>) = choose|
            prev: Option<HitRecord>,
            cur: Option<HitRecord>,
        |
            {
                &&& #[trigger] scanned(prev, cur)
                &&& HittableList::scan_outcome((n - 1) as nat, probe, ray_t, prev)
                &&& call_ensures(
                    probe,
                    ((n - 1) as usize, Interval { min: ray_t.min, max: closest(prev, ray_t) }),
                    cur,
                )
                &&& rec == if cur is Some {
                    cur
                } else {
                    prev
                }
            };
        let before = first((n - 1) as nat);
        let last = (n - 1) as usize;
        let one = set![last];
        assert(first(n) =~= before.union(one));
        assert(lawful(probe, reach, before, ray_t.min, top));
        lemma_scan_best((n - 1) as nat, probe, reach, ray_t, prev);
        let near = Interval { min: ray_t.min, max: closest(prev, ray_t) };
        let c = near.max.key();
        assert(first(n).contains(last));
        assert(answers(reach, last, c, cur));
        assert(steady(reach, last, c, c));
        assert(is_best(reach, one, c, HitRecord::key_of(cur)));
        match prev {
            Some(ph) => {
                lemma_merge(reach, before, one, top, top, ph.t.key(), HitRecord::key_of(cur));
            },
            None => {
                lemma_merge_none(reach, before, one, top, HitRecord::key_of(cur));
            },
        }
    }
}

/// The hierarchy and the plain scan agree.  Take a tree over the first `n`
/// surfaces of a list, a ray and a range, surfaces that answer as `lawful`
/// asks and boxes that hide none of them.  Then whatever a walk of the tree
/// returns and whatever a scan of the list returns, either both are an
/// intersection or neither is, and the two intersections lie at the same
/// ray parameter.
pub proof fn lemma_bvh_agrees_with_scan<S: Fn(Aabb) -> [Interval; 3], P: Fn(usize, Interval) -> Option<HitRecord>>(
    tree: BvhNode,
    n: nat,
    slabs: &S,
    probe: &P,
    reach: spec_fn(usize, int) -> Option<int>,
    ray_t: Interval,
    from_tree: Option<HitRecord>,
    from_scan: Option<HitRecord>,
)
    requires
        n <= usize::MAX,
        tree.leaf_set() == first(n),
        !ray_t.max.is_nan_spec(),
        lawful(probe, reach, first(n), ray_t.min, ray_t.max.key()),
        tree.unhidden(slabs, reach, ray_t.min, ray_t.max.key()),
        tree.outcome(slabs, probe, ray_t, from_tree),
        HittableList::scan_outcome(n, probe, ray_t, from_scan),
    ensures
        from_tree is Some <==> from_scan is Some,
        from_tree matches Some(a) ==> from_scan matches Some(b) && a.t.eq_spec(b.t),
{
    let top = ray_t.max.key();
    lemma_node_best(tree, slabs, probe, reach, top, ray_t, from_tree);
    lemma_scan_best(n, probe, reach, ray_t, from_scan);
    lemma_best_is_unique(
        reach,
        first(n),
        top,
        HitRecord::key_of(from_tree),
        HitRecord::key_of(from_scan),
    );
}

/// The hierarchy and the plain scan agree, for surfaces that lie in their
/// boxes.  Take a tree over the first `n` surfaces of a list whose nodes
/// hold the hulls of their children's boxes, surfaces that answer as
/// `lawful` asks and lie in their boxes, and a slab test that has an answer
/// for every box and grows with the box.  Then a walk of the tree and a
/// scan of the list both find an intersection or neither does, and the two
/// intersections lie at the same ray parameter.
pub proof fn lemma_sound_tree_agrees_with_scan<S: Fn(Aabb) -> [Interval; 3], P: Fn(usize, Interval) -> Option<HitRecord>>(
    tree: BvhNode,
    boxes: Seq<Aabb>,
    n: nat,
    slabs: &S,
    probe: &P,
    reach: spec_fn(usize, int) -> Option<int>,
    ray_t: Interval,
    from_tree: Option<HitRecord>,
    from_scan: Option<HitRecord>,
)
    requires
        n <= usize::MAX,
        tree.wf(boxes),
        crate::bvh::boxes_are_numbers(boxes),
        tree.leaf_set() == first(n),
        !ray_t.max.is_nan_spec(),
        lawful(probe, reach, first(n), ray_t.min, ray_t.max.key()),
        forall|b: Aabb| #[trigger] has_answer(slabs, b),
        monotone(slabs, ray_t.min, ray_t.max.key()),
        boxed(slabs, reach, boxes, first(n), ray_t.min, ray_t.max.key()),
        tree.outcome(slabs, probe, ray_t, from_tree),
        HittableList::scan_outcome(n, probe, ray_t, from_scan),
    ensures
        from_tree is Some <==> from_scan is Some,
        from_tree matches Some(a) ==> from_scan matches Some(b) && a.t.eq_spec(b.t),
{
    lemma_sound_boxes_hide_nothing(tree, boxes, slabs, reach, ray_t.min, ray_t.max.key());
    lemma_bvh_agrees_with_scan(tree, n, slabs, probe, reach, ray_t, from_tree, from_scan);
}

} // verus!
