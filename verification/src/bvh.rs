//! The bounding-volume hierarchy: a binary tree of boxes over the surfaces of
//! a scene, built once and then walked by every ray.
//!
//! The tree knows a surface by its index in the scene's table and by its
//! bounding box.  Meeting a ray with a box or a surface is arithmetic and is
//! done by the caller: a walk takes two functions, one that gives the
//! crossings of the ray with a box and one that probes a surface.

use crate::aabb::Aabb;
use crate::hittable::HitRecord;
use crate::hittable_list::HittableList;
use crate::interval::Interval;
use crate::permutation::{counting, exchange, lemma_exchange_keeps, span_set};
use crate::sampling::random_axis;
use vstd::prelude::*;

verus! {

/// What hangs below a node: one surface, or another node.
#[derive(Debug)]
pub enum BvhChild {
    Leaf(usize),
    Node(Box<BvhNode>),
}

/// A node of the hierarchy: two children and the box that holds both.
#[derive(Debug)]
pub struct BvhNode {
    pub left: BvhChild,
    pub right: BvhChild,
    pub bbox: Aabb,
}

/// The order code by which surface `v` is sorted along `axis`: the lower
/// bound of its box on that axis.
pub open spec fn sort_key(boxes: Seq<Aabb>, v: usize, axis: int) -> int {
    boxes[v as int].axis(axis).min.key()
}

/// Whether `order` is sorted along `axis` from `start` up to `end`.
pub open spec fn span_sorted(boxes: Seq<Aabb>, order: Seq<usize>, start: int, end: int, axis: int)
    -> bool {
    forall|i: int, j: int|
        start <= i <= j < end ==> sort_key(boxes, #[trigger] order[i], axis) <= sort_key(
            boxes,
            #[trigger] order[j],
            axis,
        )
}

/// Whether every entry of `order` from `start` up to `end` names a box.
pub open spec fn span_valid(boxes: Seq<Aabb>, order: Seq<usize>, start: int, end: int) -> bool {
    forall|j: int| start <= j < end ==> (#[trigger] order[j]) < boxes.len()
}

/// Whether all the boxes have numbers for bounds.
pub open spec fn boxes_are_numbers(boxes: Seq<Aabb>) -> bool {
    forall|i: int| 0 <= i < boxes.len() ==> (#[trigger] boxes[i]).is_number()
}

/// Whether, along `axis`, no surface of `left` starts after a surface of
/// `right`.
pub open spec fn splits(boxes: Seq<Aabb>, left: Set<usize>, right: Set<usize>, axis: int) -> bool {
    forall|a: usize, b: usize|
        left.contains(a) && right.contains(b) ==> #[trigger] sort_key(boxes, a, axis)
            <= #[trigger] sort_key(boxes, b, axis)
}

/// Whether some surface of `ids` reaches the bound of `b` on the given side
/// of axis `n`.
pub open spec fn touches(b: Aabb, boxes: Seq<Aabb>, ids: Set<usize>, n: int, upper: bool) -> bool {
    exists|i: usize| ids.contains(i) && #[trigger] boxes[i as int].side(n, upper) == b.side(n, upper)
}

/// Whether `b` is the least box that holds the boxes of the surfaces `ids`:
/// it holds each of them, and on every side one of them reaches its bound.
pub open spec fn tight(b: Aabb, boxes: Seq<Aabb>, ids: Set<usize>) -> bool {
    &&& b.is_number()
    &&& forall|i: usize, n: int|
        ids.contains(i) && 0 <= n < 3 ==> b.side(n, false) <= #[trigger] boxes[i as int].side(
            n,
            false,
        )
    &&& forall|i: usize, n: int|
        ids.contains(i) && 0 <= n < 3 ==> #[trigger] boxes[i as int].side(n, true) <= b.side(
            n,
            true,
        )
    &&& forall|n: int, upper: bool| 0 <= n < 3 ==> #[trigger] touches(b, boxes, ids, n, upper)
}

/// The hull of the least boxes of two groups is the least box of both.
pub proof fn lemma_hull_is_tight(
    a: Aabb,
    b: Aabb,
    boxes: Seq<Aabb>,
    left: Set<usize>,
    right: Set<usize>,
)
    requires
        tight(a, boxes, left),
        tight(b, boxes, right),
    ensures
        tight(Aabb::hull(a, b), boxes, left.union(right)),
{
    let h = Aabb::hull(a, b);
    let both = left.union(right);
    Aabb::lemma_hull_encloses(a, b);
    Interval::lemma_hull_encloses(a.x, b.x);
    Interval::lemma_hull_encloses(a.y, b.y);
    Interval::lemma_hull_encloses(a.z, b.z);
    assert forall|n: int, upper: bool| 0 <= n < 3 implies #[trigger] touches(
        h,
        boxes,
        both,
        n,
        upper,
    ) by {
        assert(touches(a, boxes, left, n, upper));
        assert(touches(b, boxes, right, n, upper));
        let wa = choose|i: usize|
            left.contains(i) && #[trigger] boxes[i as int].side(n, upper) == a.side(n, upper);
        let wb = choose|i: usize|
            right.contains(i) && #[trigger] boxes[i as int].side(n, upper) == b.side(n, upper);
        if h.side(n, upper) == a.side(n, upper) {
            assert(both.contains(wa) && boxes[wa as int].side(n, upper) == h.side(n, upper));
        } else {
            assert(h.side(n, upper) == b.side(n, upper));
            assert(both.contains(wb) && boxes[wb as int].side(n, upper) == h.side(n, upper));
        }
    }
    assert forall|i: usize, n: int| both.contains(i) && 0 <= n < 3 implies h.side(n, false)
        <= #[trigger] boxes[i as int].side(n, false) by {
        if left.contains(i) {
            assert(a.side(n, false) <= boxes[i as int].side(n, false));
        } else {
            assert(b.side(n, false) <= boxes[i as int].side(n, false));
        }
    }
    assert forall|i: usize, n: int| both.contains(i) && 0 <= n < 3 implies #[trigger] boxes[i as int].side(
        n,
        true,
    ) <= h.side(n, true) by {
        if left.contains(i) {
            assert(boxes[i as int].side(n, true) <= a.side(n, true));
        } else {
            assert(boxes[i as int].side(n, true) <= b.side(n, true));
        }
    }
}

/// The box of one surface is the least box that holds it.
pub proof fn lemma_own_box_is_tight(boxes: Seq<Aabb>, i: usize)
    requires
        i < boxes.len(),
        boxes[i as int].is_number(),
    ensures
        tight(boxes[i as int], boxes, set![i]),
{
    let b = boxes[i as int];
    let one = set![i];
    assert forall|n: int, upper: bool| 0 <= n < 3 implies #[trigger] touches(
        b,
        boxes,
        one,
        n,
        upper,
    ) by {
        assert(one.contains(i) && boxes[i as int].side(n, upper) == b.side(n, upper));
    }
}

/// Two least boxes of one group have the same bounds.
pub proof fn lemma_tight_is_unique(a: Aabb, b: Aabb, boxes: Seq<Aabb>, ids: Set<usize>)
    requires
        tight(a, boxes, ids),
        tight(b, boxes, ids),
    ensures
        a.same_bounds(b),
{
    assert forall|n: int, upper: bool| 0 <= n < 3 implies a.side(n, upper) == b.side(n, upper) by {
        assert(touches(a, boxes, ids, n, upper));
        assert(touches(b, boxes, ids, n, upper));
        let wa = choose|i: usize|
            ids.contains(i) && #[trigger] boxes[i as int].side(n, upper) == a.side(n, upper);
        let wb = choose|i: usize|
            ids.contains(i) && #[trigger] boxes[i as int].side(n, upper) == b.side(n, upper);
        if upper {
            assert(boxes[wa as int].side(n, true) <= b.side(n, true));
            assert(boxes[wb as int].side(n, true) <= a.side(n, true));
        } else {
            assert(b.side(n, false) <= boxes[wa as int].side(n, false));
            assert(a.side(n, false) <= boxes[wb as int].side(n, false));
        }
    }
    assert(a.side(0, false) == b.side(0, false) && a.side(0, true) == b.side(0, true));
    assert(a.side(1, false) == b.side(1, false) && a.side(1, true) == b.side(1, true));
    assert(a.side(2, false) == b.side(2, false) && a.side(2, true) == b.side(2, true));
}

/// The hull of a span is the least box that holds its surfaces.
pub proof fn lemma_span_hull_is_tight(boxes: Seq<Aabb>, order: Seq<usize>, start: int, end: int)
    requires
        0 <= start < end <= order.len(),
        span_valid(boxes, order, start, end),
        boxes_are_numbers(boxes),
    ensures
        tight(span_hull(boxes, order, start, end), boxes, span_set(order, start, end)),
    decreases end - start,
{
    let last = order[end - 1];
    lemma_own_box_is_tight(boxes, last);
    lemma_span_set_small(order, end - 1);
    if end - 1 == start {
        Aabb::lemma_hull_with_empty(boxes[last as int]);
        assert(span_hull(boxes, order, start, start) == Aabb::empty_spec());
    } else {
        lemma_span_hull_is_tight(boxes, order, start, end - 1);
        lemma_hull_is_tight(
            span_hull(boxes, order, start, end - 1),
            boxes[last as int],
            boxes,
            span_set(order, start, end - 1),
            set![last],
        );
        lemma_span_set_split(order, start, end - 1, end);
    }
}

/// Sorts the entries of `order` from `start` up to `end` by the lower bounds
/// of their boxes along `axis`, smallest first.  Entries outside the span
/// stay where they are.  A bound that is no number compares as equal to
/// every other, so that the span is then rearranged but need not be in
/// order.
pub fn sort_span(boxes: &Vec<Aabb>, order: &mut Vec<usize>, start: usize, end: usize, axis: i32)
    requires
        start <= end <= old(order).len(),
        span_valid(boxes@, old(order)@, start as int, end as int),
    ensures
        final(order).len() == old(order).len(),
        span_valid(boxes@, final(order)@, start as int, end as int),
        boxes_are_numbers(boxes@) ==> span_sorted(
            boxes@,
            final(order)@,
            start as int,
            end as int,
            axis as int,
        ),
        final(order)@.to_multiset() == old(order)@.to_multiset(),
        span_set(final(order)@, start as int, end as int) == span_set(
            old(order)@,
            start as int,
            end as int,
        ),
        forall|j: int|
            0 <= j < start || end <= j < old(order).len() ==> final(order)@[j] == old(order)@[j],
{
    let mut i: usize = start;
    while i < end
        invariant
            start <= i <= end <= order.len(),
            order.len() == old(order).len(),
            span_valid(boxes@, order@, start as int, end as int),
            boxes_are_numbers(boxes@) ==> span_sorted(
                boxes@,
                order@,
                start as int,
                i as int,
                axis as int,
            ),
            order@.to_multiset() == old(order)@.to_multiset(),
            span_set(order@, start as int, end as int) == span_set(
                old(order)@,
                start as int,
                end as int,
            ),
            forall|j: int|
                0 <= j < start || end <= j < old(order).len() ==> order@[j] == old(order)@[j],
        decreases end - i,
    {
        let mut j: usize = i;
        while j > start && BvhNode::box_compare(&boxes[order[j]], &boxes[order[j - 1]], axis)
            invariant
                start <= j <= i < end <= order.len(),
                order.len() == old(order).len(),
                span_valid(boxes@, order@, start as int, end as int),
                boxes_are_numbers(boxes@) ==> forall|a: int, b: int|
                    start <= a <= b <= i && a != j && b != j ==> sort_key(
                        boxes@,
                        #[trigger] order@[a],
                        axis as int,
                    ) <= sort_key(boxes@, #[trigger] order@[b], axis as int),
                boxes_are_numbers(boxes@) ==> forall|b: int|
                    j < b <= i ==> sort_key(boxes@, order@[j as int], axis as int) <= sort_key(
                        boxes@,
                        #[trigger] order@[b],
                        axis as int,
                    ),
                order@.to_multiset() == old(order)@.to_multiset(),
                span_set(order@, start as int, end as int) == span_set(
                    old(order)@,
                    start as int,
                    end as int,
                ),
                forall|k: int|
                    0 <= k < start || end <= k < old(order).len() ==> order@[k] == old(order)@[k],
            decreases j,
        {
            proof {
                lemma_exchange_keeps(order@, start as int, end as int, j as int, j - 1);
            }
            exchange(order, j, j - 1);
            j = j - 1;
        }
        i = i + 1;
    }
}

/// The hull of the boxes of the surfaces listed in `order` from `start` up
/// to `end`.
pub open spec fn span_hull(boxes: Seq<Aabb>, order: Seq<usize>, start: int, end: int) -> Aabb
    decreases end - start,
{
    if end <= start {
        Aabb::empty_spec()
    } else {
        Aabb::hull(span_hull(boxes, order, start, end - 1), boxes[order[end - 1] as int])
    }
}

/// The hull of the boxes of the surfaces listed in `order` from `start` up
/// to `end`.
pub fn span_box(boxes: &Vec<Aabb>, order: &Vec<usize>, start: usize, end: usize) -> (b: Aabb)
    requires
        start <= end <= order.len(),
        span_valid(boxes@, order@, start as int, end as int),
    ensures
        b == span_hull(boxes@, order@, start as int, end as int),
{
    let mut b = Aabb::empty();
    let mut k: usize = start;
    while k < end
        invariant
            start <= k <= end <= order.len(),
            span_valid(boxes@, order@, start as int, end as int),
            b == span_hull(boxes@, order@, start as int, k as int),
        decreases end - k,
    {
        b = Aabb::new_aabb(&b, &boxes[order[k]]);
        k = k + 1;
    }
    b
}

/// A span lists what its two parts list.
pub proof fn lemma_span_set_split(order: Seq<usize>, start: int, mid: int, end: int)
    requires
        start <= mid <= end,
    ensures
        span_set(order, start, end) == span_set(order, start, mid).union(
            span_set(order, mid, end),
        ),
{
    assert forall|v: usize|
        span_set(order, start, end).contains(v) == span_set(order, start, mid).union(
            span_set(order, mid, end),
        ).contains(v) by {
        if span_set(order, start, end).contains(v) {
            let j = choose|j: int| start <= j < end && order[j] == v;
            if j < mid {
                assert(start <= j < mid && order[j] == v);
            } else {
                assert(mid <= j < end && order[j] == v);
            }
        }
        if span_set(order, start, mid).contains(v) {
            let j = choose|j: int| start <= j < mid && order[j] == v;
            assert(start <= j < end && order[j] == v);
        }
        if span_set(order, mid, end).contains(v) {
            let j = choose|j: int| mid <= j < end && order[j] == v;
            assert(start <= j < end && order[j] == v);
        }
    }
    assert(span_set(order, start, end) =~= span_set(order, start, mid).union(
        span_set(order, mid, end),
    ));
}

/// Two orders that agree on a span list the same surfaces there.
pub proof fn lemma_span_set_same(a: Seq<usize>, b: Seq<usize>, start: int, end: int)
    requires
        forall|j: int| start <= j < end ==> a[j] == b[j],
    ensures
        span_set(a, start, end) == span_set(b, start, end),
{
    assert forall|v: usize| span_set(a, start, end).contains(v) == span_set(
        b,
        start,
        end,
    ).contains(v) by {
        if span_set(a, start, end).contains(v) {
            let j = choose|j: int| start <= j < end && a[j] == v;
            assert(start <= j < end && b[j] == v);
        }
        if span_set(b, start, end).contains(v) {
            let j = choose|j: int| start <= j < end && b[j] == v;
            assert(start <= j < end && a[j] == v);
        }
    }
    assert(span_set(a, start, end) =~= span_set(b, start, end));
}

/// A span of one entry lists that entry, a span of two lists both.
pub proof fn lemma_span_set_small(order: Seq<usize>, start: int)
    ensures
        span_set(order, start, start + 1) == set![order[start]],
        span_set(order, start, start + 2) == set![order[start]].union(set![order[start + 1]]),
{
    let single = set![order[start]];
    assert forall|v: usize| #[trigger]
        span_set(order, start, start + 1).contains(v) == single.contains(v) by {
        if v == order[start] {
            assert(start <= start < start + 1 && order[start] == v);
        }
    }
    assert(span_set(order, start, start + 1) =~= set![order[start]]);
    let pair = set![order[start]].union(set![order[start + 1]]);
    assert forall|v: usize| #[trigger]
        span_set(order, start, start + 2).contains(v) == pair.contains(v) by {
        if v == order[start] {
            assert(start <= start < start + 2 && order[start] == v);
        }
        if v == order[start + 1] {
            assert(start <= start + 1 < start + 2 && order[start + 1] == v);
        }
    }
    assert(span_set(order, start, start + 2) =~= set![order[start]].union(
        set![order[start + 1]],
    ));
}

/// Marks the three values that a walk goes through at a node: the crossings
/// of the ray with the node's box and the answers of the two children.
pub open spec fn considered(c: [Interval; 3], l: Option<HitRecord>, r: Option<HitRecord>) -> bool {
    true
}

/// The range that is left to search on the right once the left has reported
/// `l`: from the near end of `ray_t` to `l`.
pub open spec fn shrunk(ray_t: Interval, l: HitRecord) -> Interval {
    Interval { min: ray_t.min, max: l.t }
}

/// The nearer of the left child's intersection and the right child's answer:
/// the right one where it lies strictly before, else the left one.
pub open spec fn nearer(l: HitRecord, r: Option<HitRecord>) -> HitRecord {
    match r {
        Some(h) => if h.t.lt_spec(l.t) {
            h
        } else {
            l
        },
        None => l,
    }
}

impl BvhChild {
    /// What a walk below this child may return, given the answers that
    /// `slabs` and `probe` may give.
    pub open spec fn outcome<S: Fn(Aabb) -> [Interval; 3], P: Fn(usize, Interval) -> Option<HitRecord>>(
        self,
        slabs: &S,
        probe: &P,
        ray_t: Interval,
        rec: Option<HitRecord>,
    ) -> bool
        decreases self,
    {
        match self {
            BvhChild::Leaf(i) => call_ensures(probe, (i, ray_t), rec),
            BvhChild::Node(n) => n.outcome(slabs, probe, ray_t, rec),
        }
    }

    /// Walks below this child: probes the surface, or walks the node.
    pub fn hit<S: Fn(Aabb) -> [Interval; 3], P: Fn(usize, Interval) -> Option<HitRecord>>(
        &self,
        ray_t: &Interval,
        slabs: &S,
        probe: &P,
    ) -> (rec: Option<HitRecord>)
        requires
            forall|b: Aabb| call_requires(slabs, (b,)),
            forall|i: usize, iv: Interval|
                self.leaf_set().contains(i) ==> call_requires(probe, (i, iv)),
        ensures
            self.outcome(slabs, probe, *ray_t, rec),
        decreases self,
    {
        match self {
            BvhChild::Leaf(i) => {
                assert(self.leaf_set().contains(*i));
                probe(*i, *ray_t)
            },
            BvhChild::Node(n) => n.hit(ray_t, slabs, probe),
        }
    }

    /// The surfaces below.
    pub open spec fn leaf_set(self) -> Set<usize>
        decreases self,
    {
        match self {
            BvhChild::Leaf(i) => set![i],
            BvhChild::Node(n) => n.leaf_set(),
        }
    }

    /// The box of the child: a surface's own box, a node's stored box.
    pub open spec fn bound(self, boxes: Seq<Aabb>) -> Aabb {
        match self {
            BvhChild::Leaf(i) => boxes[i as int],
            BvhChild::Node(n) => n.bbox,
        }
    }

    /// Whether every surface below names a box and every node below holds
    /// the hull of its children's boxes.
    pub open spec fn wf(self, boxes: Seq<Aabb>) -> bool
        decreases self,
    {
        match self {
            BvhChild::Leaf(i) => i < boxes.len(),
            BvhChild::Node(n) => n.wf(boxes),
        }
    }
}

impl BvhNode {
    /// The surfaces below the node.
    pub open spec fn leaf_set(self) -> Set<usize>
        decreases self,
    {
        self.left.leaf_set().union(self.right.leaf_set())
    }

    /// Whether every surface below names a box and every node, this one
    /// included, holds the hull of its children's boxes.
    pub open spec fn wf(self, boxes: Seq<Aabb>) -> bool
        decreases self,
    {
        &&& self.left.wf(boxes)
        &&& self.right.wf(boxes)
        &&& self.bbox == Aabb::hull(self.left.bound(boxes), self.right.bound(boxes))
    }

    /// The shape of a tree built over `n` surfaces by bisection: with one
    /// surface both children are that surface, with two each child is one of
    /// them, and with more the children are trees over the lower half,
    /// rounded down, and over the rest.
    pub open spec fn bisected(self, n: nat) -> bool
        decreases self,
    {
        if n == 1 {
            self.left is Leaf && self.right is Leaf && self.left == self.right
        } else if n == 2 {
            self.left is Leaf && self.right is Leaf
        } else {
            &&& n > 2
            &&& self.left matches BvhChild::Node(l) && l.bisected(n / 2)
            &&& self.right matches BvhChild::Node(r) && r.bisected((n - n / 2) as nat)
        }
    }

    /// The surfaces below a tree that is bisected over `n` surfaces, from
    /// left to right.  The one surface of a tree over one is listed once.
    pub open spec fn listing(self, n: nat) -> Seq<usize>
        decreases self,
    {
        if n <= 1 {
            seq![self.left->Leaf_0]
        } else if n == 2 {
            seq![self.left->Leaf_0, self.right->Leaf_0]
        } else {
            match (self.left, self.right) {
                (BvhChild::Node(l), BvhChild::Node(r)) => l.listing(n / 2) + r.listing(
                    (n - n / 2) as nat,
                ),
                _ => Seq::empty(),
            }
        }
    }

    /// The length of the longest way down to a surface.
    pub open spec fn height(self) -> nat
        decreases self,
    {
        let l = match self.left {
            BvhChild::Leaf(_) => 0nat,
            BvhChild::Node(n) => n.height(),
        };
        let r = match self.right {
            BvhChild::Leaf(_) => 0nat,
            BvhChild::Node(n) => n.height(),
        };
        if l >= r {
            l + 1
        } else {
            r + 1
        }
    }

    /// Whether, at every node with more than two surfaces below, some axis
    /// separates the children: along it no surface on the left starts after
    /// a surface on the right.
    pub open spec fn separated(self, boxes: Seq<Aabb>) -> bool
        decreases self,
    {
        match (self.left, self.right) {
            (BvhChild::Node(l), BvhChild::Node(r)) => {
                &&& l.separated(boxes)
                &&& r.separated(boxes)
                &&& exists|axis: int| #[trigger] splits(boxes, l.leaf_set(), r.leaf_set(), axis)
            },
            _ => true,
        }
    }

    /// Whether every cut of the tree was made along the axis that `axis_of`
    /// gave: at every node with more than two surfaces below, `axis_of` has
    /// answered with an axis for a box with the bounds of the node's box,
    /// and along that axis no surface on the left starts after a surface on
    /// the right.
    pub open spec fn cut_by<A: Fn(Aabb) -> i32>(self, boxes: Seq<Aabb>, axis_of: &A) -> bool
        decreases self,
    {
        match (self.left, self.right) {
            (BvhChild::Node(l), BvhChild::Node(r)) => {
                &&& l.cut_by(boxes, axis_of)
                &&& r.cut_by(boxes, axis_of)
                &&& exists|whole: Aabb, axis: i32|
                    {
                        &&& #[trigger] call_ensures(axis_of, (whole,), axis)
                        &&& whole.same_bounds(self.bbox)
                        &&& splits(boxes, l.leaf_set(), r.leaf_set(), axis as int)
                    }
            },
            _ => true,
        }
    }

    /// What a walk from this node may return, given the answers that `slabs`
    /// and `probe` may give.  The ray is met with the node's box first; where
    /// it misses, nothing is returned.  Else the left child is asked.  Where
    /// it reports an intersection, the right child is asked for one up to
    /// there and the nearer of the two is returned; where it reports none,
    /// the right child's answer for the whole range is returned.
    pub open spec fn outcome<S: Fn(Aabb) -> [Interval; 3], P: Fn(usize, Interval) -> Option<HitRecord>>(
        self,
        slabs: &S,
        probe: &P,
        ray_t: Interval,
        rec: Option<HitRecord>,
    ) -> bool
        decreases self,
    {
        exists|c: [Interval; 3], l: Option<HitRecord>, r: Option<HitRecord>|
            {
                &&& #[trigger] considered(c, l, r)
                &&& call_ensures(slabs, (self.bbox,), c)
                &&& if !Aabb::hit_spec(c, ray_t) {
                    rec is None
                } else {
                    &&& self.left.outcome(slabs, probe, ray_t, l)
                    &&& match l {
                        Some(lh) => {
                            &&& self.right.outcome(slabs, probe, shrunk(ray_t, lh), r)
                            &&& rec == Some(nearer(lh, r))
                        },
                        None => self.right.outcome(slabs, probe, ray_t, r) && rec == r,
                    }
                }
            }
    }

    /// The nearest intersection of a ray with the surfaces below the node
    /// inside `ray_t`.  `slabs(b)` gives, for each axis, the two ray
    /// parameters at which the ray crosses the planes that bound box `b`;
    /// `probe(i, range)` meets the ray with surface `i` inside `range`.
    pub fn hit<S: Fn(Aabb) -> [Interval; 3], P: Fn(usize, Interval) -> Option<HitRecord>>(
        &self,
        ray_t: &Interval,
        slabs: &S,
        probe: &P,
    ) -> (rec: Option<HitRecord>)
        requires
            forall|b: Aabb| call_requires(slabs, (b,)),
            forall|i: usize, iv: Interval|
                self.leaf_set().contains(i) ==> call_requires(probe, (i, iv)),
        ensures
            self.outcome(slabs, probe, *ray_t, rec),
        decreases self,
    {
        let c = slabs(self.bbox);
        if !Aabb::hit(&c, ray_t) {
            assert(considered(c, None, None));
            return None;
        }
        let l = self.left.hit(ray_t, slabs, probe);
        match l {
            Some(left_rec) => {
                let right_ray_t = Interval::new(ray_t.min, left_rec.t);
                let r = self.right.hit(&right_ray_t, slabs, probe);
                assert(considered(c, l, r));
                match r {
                    Some(right_rec) => {
                        if right_rec.t.lt(left_rec.t) {
                            Some(right_rec)
                        } else {
                            Some(left_rec)
                        }
                    },
                    None => Some(left_rec),
                }
            },
            None => {
                let r = self.right.hit(ray_t, slabs, probe);
                assert(considered(c, l, r));
                r
            },
        }
    }

    /// The box that holds every surface below the node.
    pub fn bounding_box(&self) -> (b: &Aabb)
        ensures
            *b == self.bbox,
    {
        &self.bbox
    }

    /// Builds the tree over the surfaces listed in `order` from `start` up to
    /// `end`, whose boxes are `boxes`.  One surface becomes both children of
    /// the node; two become one child each.  With more, `axis_of` is asked
    /// for an axis, given the hull of the span; the span is sorted along
    /// that axis and cut at its middle, and each half becomes a subtree.
    pub fn new_vec_by<A: Fn(Aabb) -> i32>(
        boxes: &Vec<Aabb>,
        order: &mut Vec<usize>,
        start: usize,
        end: usize,
        axis_of: &A,
    ) -> (node: BvhNode)
        requires
            start < end <= old(order).len(),
            span_valid(boxes@, old(order)@, start as int, end as int),
            forall|b: Aabb| call_requires(axis_of, (b,)),
        ensures
            node.wf(boxes@),
            node.bisected((end - start) as nat),
            boxes_are_numbers(boxes@) ==> node.separated(boxes@),
            boxes_are_numbers(boxes@) ==> node.cut_by(boxes@, axis_of),
            boxes_are_numbers(boxes@) ==> tight(node.bbox, boxes@, node.leaf_set()),
            node.leaf_set() == span_set(old(order)@, start as int, end as int),
            node.listing((end - start) as nat) == final(order)@.subrange(start as int, end as int),
            final(order).len() == old(order).len(),
            final(order)@.to_multiset() == old(order)@.to_multiset(),
            span_valid(boxes@, final(order)@, start as int, end as int),
            span_set(final(order)@, start as int, end as int) == span_set(
                old(order)@,
                start as int,
                end as int,
            ),
            forall|j: int|
                0 <= j < start || end <= j < old(order).len() ==> final(order)@[j] == old(
                    order,
                )@[j],
        decreases end - start,
    {
        let span = end - start;
        proof {
            lemma_span_set_small(order@, start as int);
        }
        if span == 1 {
            let i = order[start];
            assert(order@.subrange(start as int, end as int) =~= seq![i]);
            proof {
                if boxes_are_numbers(boxes@) {
                    lemma_own_box_is_tight(boxes@, i);
                    lemma_hull_is_tight(
                        boxes@[i as int],
                        boxes@[i as int],
                        boxes@,
                        set![i],
                        set![i],
                    );
                }
                assert(set![i].union(set![i]) =~= set![i]);
            }
            BvhNode {
                left: BvhChild::Leaf(i),
                right: BvhChild::Leaf(i),
                bbox: Aabb::new_aabb(&boxes[i], &boxes[i]),
            }
        } else if span == 2 {
            let i = order[start];
            let j = order[start + 1];
            assert(order@.subrange(start as int, end as int) =~= seq![i, j]);
            proof {
                if boxes_are_numbers(boxes@) {
                    lemma_own_box_is_tight(boxes@, i);
                    lemma_own_box_is_tight(boxes@, j);
                    lemma_hull_is_tight(
                        boxes@[i as int],
                        boxes@[j as int],
                        boxes@,
                        set![i],
                        set![j],
                    );
                }
            }
            BvhNode {
                left: BvhChild::Leaf(i),
                right: BvhChild::Leaf(j),
                bbox: Aabb::new_aabb(&boxes[i], &boxes[j]),
            }
        } else {
            let whole = span_box(boxes, order, start, end);
            let axis = axis_of(whole);
            proof {
                if boxes_are_numbers(boxes@) {
                    lemma_span_hull_is_tight(boxes@, order@, start as int, end as int);
                }
            }
            sort_span(boxes, order, start, end, axis);
            let mid = start + span / 2;
            let ghost sorted = order@;
            let left = BvhNode::new_vec_by(boxes, order, start, mid, axis_of);
            let ghost halfway = order@;
            let right = BvhNode::new_vec_by(boxes, order, mid, end, axis_of);
            let bbox = Aabb::new_aabb(&left.bbox, &right.bbox);
            proof {
                assert(order@.subrange(start as int, end as int) =~= halfway.subrange(
                    start as int,
                    mid as int,
                ) + order@.subrange(mid as int, end as int));
                lemma_span_set_same(halfway, sorted, mid as int, end as int);
                lemma_span_set_split(sorted, start as int, mid as int, end as int);
                lemma_span_set_split(order@, start as int, mid as int, end as int);
                lemma_span_set_split(halfway, start as int, mid as int, end as int);
                lemma_span_set_same(order@, halfway, start as int, mid as int);
                if boxes_are_numbers(boxes@) {
                lemma_hull_is_tight(left.bbox, right.bbox, boxes@, left.leaf_set(), right.leaf_set());
                assert(splits(boxes@, left.leaf_set(), right.leaf_set(), axis as int)) by {
                    assert forall|a: usize, b: usize|
                        left.leaf_set().contains(a) && right.leaf_set().contains(
                            b,
                        ) implies #[trigger] sort_key(boxes@, a, axis as int)
                        <= #[trigger] sort_key(boxes@, b, axis as int) by {
                        let i = choose|i: int| start <= i < mid && sorted[i] == a;
                        let j = choose|j: int| mid <= j < end && sorted[j] == b;
                        assert(sort_key(boxes@, sorted[i], axis as int) <= sort_key(
                            boxes@,
                            sorted[j],
                            axis as int,
                        ));
                    }
                }
                lemma_tight_is_unique(
                    whole,
                    bbox,
                    boxes@,
                    span_set(old(order)@, start as int, end as int),
                );
                assert(call_ensures(axis_of, (whole,), axis));
                }
            }
            BvhNode {
                left: BvhChild::Node(Box::new(left)),
                right: BvhChild::Node(Box::new(right)),
                bbox,
            }
        }
    }

    /// Builds the tree over the surfaces listed in `order` from `start` up to
    /// `end`, sorting each span along an axis drawn at random.
    pub fn new_vec(boxes: &Vec<Aabb>, order: &mut Vec<usize>, start: usize, end: usize) -> (node:
        BvhNode)
        requires
            start < end <= old(order).len(),
            span_valid(boxes@, old(order)@, start as int, end as int),
        ensures
            node.wf(boxes@),
            node.bisected((end - start) as nat),
            boxes_are_numbers(boxes@) ==> node.separated(boxes@),
            boxes_are_numbers(boxes@) ==> tight(node.bbox, boxes@, node.leaf_set()),
            node.leaf_set() == span_set(old(order)@, start as int, end as int),
            node.listing((end - start) as nat) == final(order)@.subrange(start as int, end as int),
            final(order).len() == old(order).len(),
            final(order)@.to_multiset() == old(order)@.to_multiset(),
            span_valid(boxes@, final(order)@, start as int, end as int),
            span_set(final(order)@, start as int, end as int) == span_set(
                old(order)@,
                start as int,
                end as int,
            ),
            forall|j: int|
                0 <= j < start || end <= j < old(order).len() ==> final(order)@[j] == old(
                    order,
                )@[j],
    {
        let draw = |whole: Aabb| -> (axis: i32)
            ensures
                0 <= axis < 3,
            { random_axis() };
        BvhNode::new_vec_by(boxes, order, start, end, &draw)
    }

    /// Builds the tree over all the surfaces of `list`, or nothing where the
    /// list is empty.  What is said of the order along the axes and of the
    /// least box holds where every box has numbers for bounds.
    pub fn new_list(list: &HittableList) -> (tree: Option<BvhNode>)
        ensures
            tree is Some <==> list.objects.len() > 0,
            tree matches Some(node) ==> {
                &&& node.wf(list.objects@)
                &&& node.bisected(list.objects.len() as nat)
                &&& node.leaf_set() == Set::new(|i: usize| i < list.objects.len())
                &&& boxes_are_numbers(list.objects@) ==> tight(
                    node.bbox,
                    list.objects@,
                    node.leaf_set(),
                )
                &&& boxes_are_numbers(list.objects@) ==> node.separated(list.objects@)
            },
            tree matches Some(node) ==> node.listing(list.objects.len() as nat).to_multiset()
                == counting(list.objects.len() as nat).to_multiset(),
    {
        let n = list.objects.len();
        if n == 0 {
            return None;
        }
        let mut order: Vec<usize> = Vec::new();
        let mut k: usize = 0;
        while k < n
            invariant
                k <= n,
                n == list.objects.len(),
                order.len() == k,
                forall|j: int| 0 <= j < k ==> order@[j] == j,
            decreases n - k,
        {
            order.push(k);
            k = k + 1;
        }
        let ghost listed = order@;
        let node = BvhNode::new_vec(&list.objects, &mut order, 0, n);
        proof {
            assert(listed =~= counting(n as nat));
            assert(order@.subrange(0, n as int) =~= order@);
            assert forall|v: usize| span_set(listed, 0, n as int).contains(v) == (v < n) by {
                if v < n {
                    assert(0 <= v < n && listed[v as int] == v);
                }
            }
            assert(span_set(listed, 0, n as int) =~= Set::new(|i: usize| i < n));
        }
        Some(node)
    }

    /// The box of a node holds every point that the box of a surface below
    /// it holds.
    pub proof fn lemma_box_holds(self, boxes: Seq<Aabb>, i: usize, p: crate::vec3::Point3)
        requires
            self.wf(boxes),
            boxes_are_numbers(boxes),
            self.leaf_set().contains(i),
            boxes[i as int].holds(p),
        ensures
            self.bbox.holds(p),
    {
        self.lemma_encloses_leaf(boxes, i);
    }

    /// The box of a node encloses the box of every surface below it.
    pub proof fn lemma_encloses_leaf(self, boxes: Seq<Aabb>, i: usize)
        requires
            self.wf(boxes),
            boxes_are_numbers(boxes),
            self.leaf_set().contains(i),
        ensures
            self.bbox.is_number(),
            self.bbox.encloses(boxes[i as int]),
        decreases self,
    {
        let l = self.left.bound(boxes);
        let r = self.right.bound(boxes);
        self.lemma_children_are_numbers(boxes);
        Aabb::lemma_hull_encloses(l, r);
        if self.left.leaf_set().contains(i) {
            match self.left {
                BvhChild::Leaf(_) => {},
                BvhChild::Node(n) => {
                    n.lemma_encloses_leaf(boxes, i);
                    Aabb::lemma_encloses_transitive(self.bbox, n.bbox, boxes[i as int]);
                },
            }
        } else {
            match self.right {
                BvhChild::Leaf(_) => {},
                BvhChild::Node(n) => {
                    n.lemma_encloses_leaf(boxes, i);
                    Aabb::lemma_encloses_transitive(self.bbox, n.bbox, boxes[i as int]);
                },
            }
        }
    }

    /// The boxes of a node and of its children have numbers for bounds.
    pub proof fn lemma_children_are_numbers(self, boxes: Seq<Aabb>)
        requires
            self.wf(boxes),
            boxes_are_numbers(boxes),
        ensures
            self.left.bound(boxes).is_number(),
            self.right.bound(boxes).is_number(),
            self.bbox.is_number(),
        decreases self,
    {
        match self.left {
            BvhChild::Leaf(_) => {},
            BvhChild::Node(n) => {
                n.lemma_children_are_numbers(boxes);
            },
        }
        match self.right {
            BvhChild::Leaf(_) => {},
            BvhChild::Node(n) => {
                n.lemma_children_are_numbers(boxes);
            },
        }
        Aabb::lemma_hull_encloses(self.left.bound(boxes), self.right.bound(boxes));
    }

    /// A bisected tree is shallow: with `n` surfaces below, twice `n`
    /// bounds two to the power of one less than its height.
    pub proof fn lemma_bisected_is_shallow(self, n: nat)
        requires
            n >= 1,
            self.bisected(n),
        ensures
            vstd::arithmetic::power2::pow2((self.height() - 1) as nat) <= if n == 1 {
                1
            } else {
                2 * n - 2
            },
        decreases self,
    {
        vstd::arithmetic::power2::lemma2_to64();
        if n > 2 {
            let l = self.left->Node_0;
            let r = self.right->Node_0;
            let nl = n / 2;
            let nr = (n - n / 2) as nat;
            l.lemma_bisected_is_shallow(nl);
            r.lemma_bisected_is_shallow(nr);
            let hl = l.height();
            let hr = r.height();
            let h = self.height();
            vstd::arithmetic::power2::lemma_pow2_unfold((h - 1) as nat);
        }
    }

    /// Whether box `a` comes before box `b` along an axis: whether its lower
    /// bound there is the smaller.  A bound that is no number comes before
    /// nothing and after nothing.
    pub fn box_compare(a: &Aabb, b: &Aabb, axis_index: i32) -> (before: bool)
        ensures
            before == a.axis(axis_index as int).min.lt_spec(b.axis(axis_index as int).min),
    {
        a.axis_interval(axis_index).min.lt(b.axis_interval(axis_index).min)
    }
}

} // verus!
