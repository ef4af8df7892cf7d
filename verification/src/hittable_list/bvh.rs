//! Building a bounding-volume hierarchy by recursive median splits.

use vstd::prelude::*;
use crate::aabb::{hull_spec, longest_of_spec, merge, Aabb};
use crate::hittable_list::{BvhTree, HitObject};
use crate::rtweekend::arrange::{
    in_range,
    lemma_in_range_agree,
    lemma_in_range_grow,
    lemma_in_range_parts,
    lemma_in_range_shift,
    lemma_rearranged_chain,
    lemma_rearranged_widen,
    rearranged,
};
use crate::rtweekend::{INF, NEG_INF};

verus! {

/// The rank by which an object is sorted along `axis`: the lower bound of its
/// box there.
pub open spec fn key_spec(boxes: Seq<Aabb>, index: usize, axis: int) -> i64 {
    boxes[index as int].b[axis].min
}

/// From `start` up to `end` the keys along `axis` never fall.
pub open spec fn sorted_on(boxes: Seq<Aabb>, order: Seq<usize>, start: int, end: int, axis: int)
    -> bool {
    forall|i: int, j: int|
        start <= i <= j < end ==> key_spec(boxes, #[trigger] order[i], axis) <= key_spec(
            boxes,
            #[trigger] order[j],
            axis,
        )
}

/// No key before `mid` exceeds a key from `mid` on.
pub open spec fn split_on(
    boxes: Seq<Aabb>,
    order: Seq<usize>,
    start: int,
    mid: int,
    end: int,
    axis: int,
) -> bool {
    forall|low: usize, high: usize|
        #![trigger in_range(order, start, mid, low), in_range(order, mid, end, high)]
        in_range(order, start, mid, low) && in_range(order, mid, end, high) ==> key_spec(
            boxes,
            low,
            axis,
        ) <= key_spec(boxes, high, axis)
}

/// Along `axis`, `bbox` is the tightest interval around the boxes that `order`
/// lists from `start` up to `end`, within the bounds of the empty box.
pub open spec fn tight_on(
    bbox: Aabb,
    boxes: Seq<Aabb>,
    order: Seq<usize>,
    start: int,
    end: int,
    axis: int,
) -> bool {
    &&& bbox.b[axis].min <= INF
    &&& bbox.b[axis].max >= NEG_INF
    &&& forall|index: usize| #[trigger]
        in_range(order, start, end, index) ==> bbox.b[axis].min <= boxes[index as int].b[axis].min
            && bbox.b[axis].max >= boxes[index as int].b[axis].max
    &&& bbox.b[axis].min == INF || exists|index: usize| #[trigger]
        in_range(order, start, end, index) && bbox.b[axis].min == boxes[index as int].b[axis].min
    &&& bbox.b[axis].max == NEG_INF || exists|index: usize| #[trigger]
        in_range(order, start, end, index) && bbox.b[axis].max == boxes[index as int].b[axis].max
}

/// `bbox` is the union of the empty box with the boxes that `order` lists from
/// `start` up to `end`.
pub open spec fn tightest(bbox: Aabb, boxes: Seq<Aabb>, order: Seq<usize>, start: int, end: int)
    -> bool {
    &&& tight_on(bbox, boxes, order, start, end, 0)
    &&& tight_on(bbox, boxes, order, start, end, 1)
    &&& tight_on(bbox, boxes, order, start, end, 2)
}

/// `tree` is a hierarchy over the objects that `order` lists from `start` up
/// to `end`. Its root is a node whose box is the union of their boxes. One
/// object stands under both children; two stand left and right as listed. More
/// are split at the midpoint so that, along the longest axis of the node's box
/// as `extents` measures it, no key on the left exceeds one on the right, and
/// each half is such a hierarchy again.
pub open spec fn built<F: Fn(&Aabb) -> [i64; 3]>(
    tree: BvhTree,
    order: Seq<usize>,
    start: int,
    end: int,
    boxes: Seq<Aabb>,
    extents: &F,
) -> bool
    decreases tree,
{
    match tree {
        BvhTree::Leaf { .. } => false,
        BvhTree::Node { left, right, bbox } => {
            &&& 0 <= start < end <= order.len()
            &&& tightest(bbox, boxes, order, start, end)
            &&& end - start == 1 ==> *left == (BvhTree::Leaf { index: order[start] }) && *right
                == (BvhTree::Leaf { index: order[start] })
            &&& end - start == 2 ==> *left == (BvhTree::Leaf { index: order[start] }) && *right
                == (BvhTree::Leaf { index: order[start + 1] })
            &&& end - start > 2 ==> {
                let mid = start + (end - start) / 2;
                &&& exists|measured: [i64; 3]| #[trigger]
                    extents.ensures((&bbox,), measured) && split_on(
                        boxes,
                        order,
                        start,
                        mid,
                        end,
                        longest_of_spec(measured) as int,
                    )
                &&& built(*left, order, start, mid, boxes, extents)
                &&& built(*right, order, mid, end, boxes, extents)
            }
        },
    }
}

/// The boxes of a list of objects, in the order of the list.
pub open spec fn boxes_of(objects: Seq<HitObject>) -> Seq<Aabb> {
    Seq::new(objects.len(), |i: int| objects[i].bounds())
}

/// Merges two sorted runs of `order` that stand side by side, from `start` up
/// to `mid` and from `mid` up to `end`, into one sorted run. Of two equal keys
/// the one that stood first stays first.
fn merge_runs(
    order: &mut Vec<usize>,
    boxes: &Vec<Aabb>,
    start: usize,
    mid: usize,
    end: usize,
    axis: usize,
)
    requires
        start <= mid <= end <= old(order).len(),
        axis < 3,
        forall|i: int| start <= i < end ==> old(order)[i] < boxes.len(),
        sorted_on(boxes@, old(order)@, start as int, mid as int, axis as int),
        sorted_on(boxes@, old(order)@, mid as int, end as int, axis as int),
    ensures
        rearranged(old(order)@, final(order)@, start as int, end as int),
        sorted_on(boxes@, final(order)@, start as int, end as int, axis as int),
        forall|i: int| start <= i < end ==> final(order)[i] < boxes.len(),
{
    let ghost before = order@;
    let mut merged: Vec<usize> = Vec::new();
    let mut i: usize = start;
    let mut j: usize = mid;
    while i < mid || j < end
        invariant
            start <= i <= mid <= j <= end <= order.len(),
            order@ == before,
            axis < 3,
            forall|k: int| start <= k < end ==> before[k] < boxes.len(),
            sorted_on(boxes@, before, start as int, mid as int, axis as int),
            sorted_on(boxes@, before, mid as int, end as int, axis as int),
            merged.len() == (i - start) + (j - mid),
            forall|k: int| 0 <= k < merged.len() ==> merged[k] < boxes.len(),
            sorted_on(boxes@, merged@, 0, merged.len() as int, axis as int),
            forall|a: int, b: int|
                0 <= a < merged.len() && (i <= b < mid || j <= b < end) ==> key_spec(
                    boxes@,
                    #[trigger] merged[a],
                    axis as int,
                ) <= key_spec(boxes@, #[trigger] before[b], axis as int),
            forall|value: usize|
                in_range(merged@, 0, merged.len() as int, value) <==> in_range(
                    before,
                    start as int,
                    i as int,
                    value,
                ) || in_range(before, mid as int, j as int, value),
        decreases (mid - i) + (end - j),
    {
        let take_left = if i >= mid {
            false
        } else if j >= end {
            true
        } else {
            boxes[order[i]].b[axis].min <= boxes[order[j]].b[axis].min
        };
        let ghost shorter = merged@;
        if take_left {
            merged.push(order[i]);
            i += 1;
            proof {
                lemma_in_range_grow(before, start as int, i - 1, i as int);
            }
        } else {
            merged.push(order[j]);
            j += 1;
            proof {
                lemma_in_range_grow(before, mid as int, j - 1, j as int);
            }
        }
        proof {
            lemma_in_range_grow(merged@, 0, shorter.len() as int, merged@.len() as int);
            lemma_in_range_agree(shorter, merged@, 0, shorter.len() as int);
        }
    }
    let mut k: usize = 0;
    while k < merged.len()
        invariant
            k <= merged.len() == end - start,
            start <= end <= order.len(),
            order.len() == before.len(),
            forall|t: int| 0 <= t < k ==> order[start + t] == merged[t],
            forall|t: int| 0 <= t < order.len() && !(start <= t < end) ==> order[t] == before[t],
        decreases merged.len() - k,
    {
        order.set(start + k, merged[k]);
        k += 1;
    }
    proof {
        let (s, m, e) = (start as int, mid as int, end as int);
        lemma_in_range_shift(order@, merged@, s, e, e - s);
        lemma_in_range_parts(before, s, m, e);
        assert forall|a: int, b: int| s <= a <= b < e implies key_spec(
            boxes@,
            #[trigger] order[a],
            axis as int,
        ) <= key_spec(boxes@, #[trigger] order[b], axis as int) by {
            assert(order[s + (a - s)] == merged[a - s]);
            assert(order[s + (b - s)] == merged[b - s]);
        }
        assert forall|t: int| s <= t < e implies order[t] < boxes.len() by {
            assert(order[s + (t - s)] == merged[t - s]);
        }
    }
}

/// Sorts `order` from `start` up to `end` by key along `axis`, keeping equal
/// keys in the order in which they stood.
fn sort_range(order: &mut Vec<usize>, boxes: &Vec<Aabb>, start: usize, end: usize, axis: usize)
    requires
        start <= end <= old(order).len(),
        axis < 3,
        forall|i: int| start <= i < end ==> old(order)[i] < boxes.len(),
    ensures
        rearranged(old(order)@, final(order)@, start as int, end as int),
        sorted_on(boxes@, final(order)@, start as int, end as int, axis as int),
        forall|i: int| start <= i < end ==> final(order)[i] < boxes.len(),
    decreases end - start,
{
    let ghost before = order@;
    if end - start < 2 {
        return ;
    }
    let mid = start + (end - start) / 2;
    sort_range(order, boxes, start, mid, axis);
    let ghost half = order@;
    sort_range(order, boxes, mid, end, axis);
    let ghost both = order@;
    proof {
        let (s, m, e) = (start as int, mid as int, end as int);
        assert forall|a: int, b: int| s <= a <= b < m implies key_spec(
            boxes@,
            #[trigger] both[a],
            axis as int,
        ) <= key_spec(boxes@, #[trigger] both[b], axis as int) by {
            assert(both[a] == half[a] && both[b] == half[b]);
        }
        assert forall|t: int| s <= t < e implies both[t] < boxes.len() by {
            if t < m {
                assert(both[t] == half[t]);
            }
        }
        lemma_rearranged_widen(before, half, s, m, s, e);
        lemma_rearranged_widen(half, both, m, e, s, e);
        lemma_rearranged_chain(before, half, both, s, e);
    }
    merge_runs(order, boxes, start, mid, end, axis);
    proof {
        lemma_rearranged_chain(before, both, order@, start as int, end as int);
    }
}

proof fn lemma_tight_grow(
    narrow: Aabb,
    bbox: Aabb,
    boxes: Seq<Aabb>,
    order: Seq<usize>,
    start: int,
    end: int,
    axis: int,
)
    requires
        0 <= start <= end < order.len(),
        0 <= axis < 3,
        order[end] < boxes.len(),
        tight_on(narrow, boxes, order, start, end, axis),
        bbox.b[axis] == hull_spec(narrow.b[axis], boxes[order[end] as int].b[axis]),
    ensures
        tight_on(bbox, boxes, order, start, end + 1, axis),
{
    lemma_in_range_grow(order, start, end, end + 1);
    let added = order[end];
    assert(in_range(order, start, end + 1, added));
    assert forall|index: usize| #[trigger] in_range(order, start, end + 1, index) implies bbox.b[axis].min
        <= boxes[index as int].b[axis].min && bbox.b[axis].max
        >= boxes[index as int].b[axis].max by {
        if index != added {
            assert(in_range(order, start, end, index));
        }
    }
    if bbox.b[axis].min != INF {
        if boxes[added as int].b[axis].min < narrow.b[axis].min {
            assert(in_range(order, start, end + 1, added) && bbox.b[axis].min
                == boxes[added as int].b[axis].min);
        } else {
            let index = choose|index: usize| #[trigger]
                in_range(order, start, end, index) && narrow.b[axis].min
                    == boxes[index as int].b[axis].min;
            assert(in_range(order, start, end + 1, index) && bbox.b[axis].min
                == boxes[index as int].b[axis].min);
        }
    }
    if bbox.b[axis].max != NEG_INF {
        if boxes[added as int].b[axis].max > narrow.b[axis].max {
            assert(in_range(order, start, end + 1, added) && bbox.b[axis].max
                == boxes[added as int].b[axis].max);
        } else {
            let index = choose|index: usize| #[trigger]
                in_range(order, start, end, index) && narrow.b[axis].max
                    == boxes[index as int].b[axis].max;
            assert(in_range(order, start, end + 1, index) && bbox.b[axis].max
                == boxes[index as int].b[axis].max);
        }
    }
}

/// The union of the empty box with the boxes that `order` lists from `start`
/// up to `end`.
fn union_of(boxes: &Vec<Aabb>, order: &Vec<usize>, start: usize, end: usize) -> (bbox: Aabb)
    requires
        start <= end <= order.len(),
        forall|i: int| start <= i < end ==> order[i] < boxes.len(),
    ensures
        tightest(bbox, boxes@, order@, start as int, end as int),
{
    let mut bbox = Aabb::empty();
    let mut i: usize = start;
    assert forall|index: usize| !in_range(order@, start as int, start as int, index) by {}
    while i < end
        invariant
            start <= i <= end <= order.len(),
            forall|k: int| start <= k < end ==> order[k] < boxes.len(),
            tightest(bbox, boxes@, order@, start as int, i as int),
        decreases end - i,
    {
        let ghost narrow = bbox;
        bbox = merge(&bbox, &boxes[order[i]]);
        proof {
            lemma_tight_grow(narrow, bbox, boxes@, order@, start as int, i as int, 0);
            lemma_tight_grow(narrow, bbox, boxes@, order@, start as int, i as int, 1);
            lemma_tight_grow(narrow, bbox, boxes@, order@, start as int, i as int, 2);
        }
        i += 1;
    }
    bbox
}

proof fn lemma_sorted_is_split(
    boxes: Seq<Aabb>,
    order: Seq<usize>,
    start: int,
    mid: int,
    end: int,
    axis: int,
)
    requires
        start <= mid <= end,
        sorted_on(boxes, order, start, end, axis),
    ensures
        split_on(boxes, order, start, mid, end, axis),
{
    assert forall|low: usize, high: usize|
        in_range(order, start, mid, low) && in_range(order, mid, end, high) implies key_spec(
        boxes,
        low,
        axis,
    ) <= key_spec(boxes, high, axis) by {
        let i = choose|i: int| start <= i < mid && order[i] == low;
        let j = choose|j: int| mid <= j < end && order[j] == high;
        assert(key_spec(boxes, order[i], axis) <= key_spec(boxes, order[j], axis));
    }
}

proof fn lemma_built_frame<F: Fn(&Aabb) -> [i64; 3]>(
    tree: BvhTree,
    a: Seq<usize>,
    b: Seq<usize>,
    start: int,
    end: int,
    boxes: Seq<Aabb>,
    extents: &F,
)
    requires
        built(tree, a, start, end, boxes, extents),
        a.len() == b.len(),
        forall|i: int| start <= i < end ==> a[i] == b[i],
    ensures
        built(tree, b, start, end, boxes, extents),
    decreases tree,
{
    match tree {
        BvhTree::Leaf { .. } => {},
        BvhTree::Node { left, right, bbox } => {
            lemma_in_range_agree(a, b, start, end);
            if end - start > 2 {
                let mid = start + (end - start) / 2;
                lemma_in_range_agree(a, b, start, mid);
                lemma_in_range_agree(a, b, mid, end);
                let measured = choose|measured: [i64; 3]| #[trigger]
                    extents.ensures((&bbox,), measured) && split_on(
                        boxes,
                        a,
                        start,
                        mid,
                        end,
                        longest_of_spec(measured) as int,
                    );
                assert(extents.ensures((&bbox,), measured) && split_on(
                    boxes,
                    b,
                    start,
                    mid,
                    end,
                    longest_of_spec(measured) as int,
                ));
                lemma_built_frame(*left, a, b, start, mid, boxes, extents);
                lemma_built_frame(*right, a, b, mid, end, boxes, extents);
            }
        },
    }
}

/// Builds the hierarchy over the objects that `order` lists from `start` up to
/// `end`, sorting that part of `order` as it goes.
fn build<F: Fn(&Aabb) -> [i64; 3]>(
    boxes: &Vec<Aabb>,
    order: &mut Vec<usize>,
    start: usize,
    end: usize,
    extents: &F,
) -> (tree: BvhTree)
    requires
        start < end <= old(order).len(),
        forall|i: int| start <= i < end ==> old(order)[i] < boxes.len(),
        forall|bbox: Aabb| #[trigger] extents.requires((&bbox,)),
    ensures
        rearranged(old(order)@, final(order)@, start as int, end as int),
        forall|i: int| start <= i < end ==> final(order)[i] < boxes.len(),
        built(tree, final(order)@, start as int, end as int, boxes@, extents),
    decreases end - start,
{
    let ghost before = order@;
    let bbox = union_of(boxes, order, start, end);
    let object_span = end - start;
    if object_span == 1 {
        BvhTree::Node {
            left: Box::new(BvhTree::Leaf { index: order[start] }),
            right: Box::new(BvhTree::Leaf { index: order[start] }),
            bbox,
        }
    } else if object_span == 2 {
        BvhTree::Node {
            left: Box::new(BvhTree::Leaf { index: order[start] }),
            right: Box::new(BvhTree::Leaf { index: order[start + 1] }),
            bbox,
        }
    } else {
        let axis = bbox.longest_axis(extents);
        let ghost measured = choose|measured: [i64; 3]| #[trigger]
            extents.ensures((&bbox,), measured) && axis == longest_of_spec(measured);
        sort_range(order, boxes, start, end, axis as usize);
        let ghost sorted = order@;
        let mid = start + object_span / 2;
        let left = build(boxes, order, start, mid, extents);
        let ghost halfway = order@;
        let right = build(boxes, order, mid, end, extents);
        proof {
            let (s, m, e) = (start as int, mid as int, end as int);
            lemma_rearranged_widen(sorted, halfway, s, m, s, e);
            lemma_rearranged_widen(halfway, order@, m, e, s, e);
            lemma_rearranged_chain(before, sorted, halfway, s, e);
            lemma_rearranged_chain(before, halfway, order@, s, e);
            lemma_sorted_is_split(boxes@, sorted, s, m, e, axis as int);
            lemma_in_range_agree(sorted, halfway, m, e);
            lemma_in_range_agree(halfway, order@, s, m);
            assert(split_on(boxes@, order@, s, m, e, longest_of_spec(measured) as int));
            lemma_built_frame(left, halfway, order@, s, m, boxes@, extents);
        }
        let tree = BvhTree::Node { left: Box::new(left), right: Box::new(right), bbox };
        proof {
            let (s, m, e) = (start as int, mid as int, end as int);
            assert(exists|measured: [i64; 3]| #[trigger]
                extents.ensures((&bbox,), measured) && split_on(
                    boxes@,
                    order@,
                    s,
                    m,
                    e,
                    longest_of_spec(measured) as int,
                ));
            assert(m == s + (e - s) / 2);
            assert(built(left, order@, s, m, boxes@, extents));
            assert(built(right, order@, m, e, boxes@, extents));
            assert(tree matches BvhTree::Node { left: l, right: r, bbox: covered } && *l == left
                && *r == right && covered == bbox);
            assert(built(tree, order@, s, e, boxes@, extents)) by {
                reveal_with_fuel(built, 2);
            }
        }
        tree
    }
}

/// `order` lists, from `start` up to `end`, exactly the indices from `start`
/// up to `end`.
pub open spec fn arranged(order: Seq<usize>, start: int, end: int) -> bool {
    forall|index: usize| in_range(order, start, end, index) <==> start <= index < end
}

/// `root` is a hierarchy over `objects` from `start` up to `end`: it keeps the
/// objects as they were given, its box is that of the root of its tree, and the
/// tree is built over some arrangement of exactly those indices.
pub open spec fn is_hierarchy<F: Fn(&Aabb) -> [i64; 3]>(
    root: HitObject,
    objects: Seq<HitObject>,
    start: int,
    end: int,
    extents: &F,
) -> bool {
    &&& root matches HitObject::Bvh { objects: kept, tree, bbox }
    &&& kept@ == objects
    &&& tree matches BvhTree::Node { bbox: covered, .. }
    &&& bbox == covered
    &&& exists|order: Seq<usize>|
        order.len() == objects.len() && arranged(order, start, end) && #[trigger] built(
            tree,
            order,
            start,
            end,
            boxes_of(objects),
            extents,
        )
}

/// Builds a bounding-volume hierarchy over the objects from `start` up to
/// `end`. The objects stay where they are; the hierarchy refers to them by
/// index. `extents` measures a box along each axis and so decides the axis
/// along which a node is split.
pub fn bvh_node<F: Fn(&Aabb) -> [i64; 3]>(
    objects: Vec<HitObject>,
    start: usize,
    end: usize,
    extents: &F,
) -> (root: HitObject)
    requires
        start < end <= objects.len(),
        forall|bbox: Aabb| #[trigger] extents.requires((&bbox,)),
    ensures
        is_hierarchy(root, objects@, start as int, end as int, extents),
{
    let mut boxes: Vec<Aabb> = Vec::new();
    let mut order: Vec<usize> = Vec::new();
    let mut i: usize = 0;
    while i < objects.len()
        invariant
            i <= objects.len(),
            boxes.len() == i,
            order.len() == i,
            forall|k: int| 0 <= k < i ==> boxes[k] == objects[k].bounds(),
            forall|k: int| 0 <= k < i ==> order[k] == k,
        decreases objects.len() - i,
    {
        boxes.push(objects[i].bounding_box());
        order.push(i);
        i += 1;
    }
    let ghost identity = order@;
    let tree = build(&boxes, &mut order, start, end, extents);
    let bbox = match &tree {
        BvhTree::Node { bbox, .. } => *bbox,
        BvhTree::Leaf { .. } => Aabb::empty(),
    };
    proof {
        assert(boxes@ =~= boxes_of(objects@));
        assert forall|index: usize| in_range(identity, start as int, end as int, index)
            <==> start <= index < end by {
            if start <= index < end {
                assert(identity[index as int] == index);
            }
        }
    }
    HitObject::Bvh { objects, tree, bbox }
}

} // verus!
