//! Why a hierarchy finds what a scan finds: both return the nearest hit.

use vstd::prelude::*;
use crate::aabb::{slab_overlap_spec, Aabb};
use crate::hittable_list::bvh::{arranged, boxes_of, built, is_hierarchy, tight_on, tightest};
use crate::hittable_list::hittable::{medium_span_spec, HitRecord, Probe};
use crate::hittable_list::{
    beyond_spec,
    latest,
    narrowed,
    scan_spec,
    tree_spec,
    BvhTree,
    HitObject,
    RayModel,
};
use crate::rtweekend::arrange::{in_range, lemma_in_range_parts};
use crate::rtweekend::interval::Interval;
use crate::rtweekend::ray::Ray;

verus! {

/// The ray parameter of the nearest hit on `object` beyond `lo`, if the ray
/// hits it there at all.
pub open spec fn nearest_spec(object: HitObject, r: Ray, lo: i64, ray: RayModel) -> Option<i64> {
    match object.hit_spec(r, Interval { min: lo, max: i64::MAX }, ray) {
        Some(rec) => Some(rec.t),
        None => None,
    }
}

/// The object answers every range that starts at `lo` from one nearest
/// crossing: it reports that crossing when it comes before the end of the range
/// and nothing otherwise.
pub open spec fn settled(object: HitObject, r: Ray, lo: i64, ray: RayModel) -> bool {
    forall|hi: i64|
        match #[trigger] object.hit_spec(r, Interval { min: lo, max: hi }, ray) {
            Some(rec) => rec.t < hi && nearest_spec(object, r, lo, ray) == Some(rec.t),
            None => not_before(nearest_spec(object, r, lo, ray), hi),
        }
}

/// `outer` covers `inner` on every axis.
pub open spec fn encloses(outer: Aabb, inner: Aabb) -> bool {
    forall|axis: int|
        0 <= axis < 3 ==> (#[trigger] outer.b[axis]).min <= inner.b[axis].min && outer.b[axis].max
            >= inner.b[axis].max
}

/// A ray that hits one of `objects` within a range that starts at `lo` passes,
/// within that range, through every box that covers the object's box.
pub open spec fn sound(objects: Seq<HitObject>, r: Ray, lo: i64, ray: RayModel) -> bool {
    forall|bbox: Aabb, k: int, hi: i64|
        #![trigger (ray.crossings)(r, bbox), objects[k].hit_spec(r, Interval { min: lo, max: hi }, ray)]
        0 <= k < objects.len() && encloses(bbox, objects[k].bounds()) && objects[k].hit_spec(
            r,
            Interval { min: lo, max: hi },
            ray,
        ) is Some ==> slab_overlap_spec((ray.crossings)(r, bbox), Interval { min: lo, max: hi })
}

/// A crossing, if there is one, does not come before `bound`.
pub open spec fn not_before(crossing: Option<i64>, bound: i64) -> bool {
    crossing matches Some(t) ==> t >= bound
}

/// None of the chosen objects is crossed before `bound`.
pub open spec fn none_before(
    objects: Seq<HitObject>,
    members: Set<int>,
    r: Ray,
    lo: i64,
    ray: RayModel,
    bound: i64,
) -> bool {
    forall|k: int|
        0 <= k < objects.len() && members.contains(k) ==> not_before(
            nearest_spec(#[trigger] objects[k], r, lo, ray),
            bound,
        )
}

/// One of the chosen objects is crossed at `t`.
pub open spec fn crossed_at(
    objects: Seq<HitObject>,
    members: Set<int>,
    r: Ray,
    lo: i64,
    ray: RayModel,
    t: i64,
) -> bool {
    exists|k: int|
        0 <= k < objects.len() && members.contains(k) && nearest_spec(#[trigger] objects[k], r, lo, ray)
            == Some(t)
}

/// `found` is the nearest hit among the chosen objects before `hi`: a record
/// sits at the earliest crossing, which comes before `hi`, and no record means
/// that no crossing comes before `hi`.
pub open spec fn is_nearest(
    found: Option<HitRecord>,
    objects: Seq<HitObject>,
    members: Set<int>,
    r: Ray,
    lo: i64,
    hi: i64,
    ray: RayModel,
) -> bool {
    match found {
        Some(rec) => rec.t < hi && crossed_at(objects, members, r, lo, ray, rec.t) && none_before(
            objects,
            members,
            r,
            lo,
            ray,
            rec.t,
        ),
        None => none_before(objects, members, r, lo, ray, hi),
    }
}

/// Two searches agree on whether the ray hits and on the ray parameter of the
/// hit.
pub open spec fn same_distance(a: Option<HitRecord>, b: Option<HitRecord>) -> bool {
    match (a, b) {
        (Some(x), Some(y)) => x.t == y.t,
        (None, None) => true,
        _ => false,
    }
}

proof fn lemma_one(objects: Seq<HitObject>, a: int, r: Ray, lo: i64, hi: i64, ray: RayModel)
    requires
        0 <= a < objects.len(),
        settled(objects[a], r, lo, ray),
    ensures
        is_nearest(
            objects[a].hit_spec(r, Interval { min: lo, max: hi }, ray),
            objects,
            set![a],
            r,
            lo,
            hi,
            ray,
        ),
{
    let members = set![a];
    let found = objects[a].hit_spec(r, Interval { min: lo, max: hi }, ray);
    if let Some(rec) = found {
        assert(members.contains(a) && nearest_spec(objects[a], r, lo, ray) == Some(rec.t));
    }
}

proof fn lemma_join(
    objects: Seq<HitObject>,
    near: Option<HitRecord>,
    far: Option<HitRecord>,
    left: Set<int>,
    right: Set<int>,
    r: Ray,
    lo: i64,
    hi: i64,
    ray: RayModel,
)
    requires
        is_nearest(near, objects, left, r, lo, hi, ray),
        is_nearest(far, objects, right, r, lo, narrowed(Interval { min: lo, max: hi }, near).max, ray),
    ensures
        is_nearest(latest(near, far), objects, left.union(right), r, lo, hi, ray),
{
    let both = left.union(right);
    match far {
        Some(rec) => {
            let k = choose|k: int|
                0 <= k < objects.len() && right.contains(k) && nearest_spec(#[trigger] objects[k], r, lo, ray)
                    == Some(rec.t);
            assert(both.contains(k));
            assert(crossed_at(objects, both, r, lo, ray, rec.t));
            assert(none_before(objects, both, r, lo, ray, rec.t));
        },
        None => {
            match near {
                Some(rec) => {
                    let k = choose|k: int|
                        0 <= k < objects.len() && left.contains(k) && nearest_spec(
                            #[trigger] objects[k],
                            r,
                            lo,
                            ray,
                        ) == Some(rec.t);
                    assert(both.contains(k));
                    assert(crossed_at(objects, both, r, lo, ray, rec.t));
                    assert(none_before(objects, both, r, lo, ray, rec.t));
                },
                None => {
                    assert(none_before(objects, both, r, lo, ray, hi));
                },
            }
        },
    }
}

proof fn lemma_one_answer(
    x: Option<HitRecord>,
    y: Option<HitRecord>,
    objects: Seq<HitObject>,
    members: Set<int>,
    r: Ray,
    lo: i64,
    hi: i64,
    ray: RayModel,
)
    requires
        is_nearest(x, objects, members, r, lo, hi, ray),
        is_nearest(y, objects, members, r, lo, hi, ray),
    ensures
        same_distance(x, y),
{
    if let Some(rec) = x {
        let k = choose|k: int|
            0 <= k < objects.len() && members.contains(k) && nearest_spec(#[trigger] objects[k], r, lo, ray)
                == Some(rec.t);
        assert(not_before(nearest_spec(objects[k], r, lo, ray), rec.t));
    }
    if let Some(rec) = y {
        let k = choose|k: int|
            0 <= k < objects.len() && members.contains(k) && nearest_spec(#[trigger] objects[k], r, lo, ray)
                == Some(rec.t);
        assert(not_before(nearest_spec(objects[k], r, lo, ray), rec.t));
    }
}

/// A scan returns the nearest hit among the objects it has looked at.
pub proof fn lemma_scan_is_nearest(
    objects: Seq<HitObject>,
    n: nat,
    r: Ray,
    lo: i64,
    hi: i64,
    ray: RayModel,
)
    requires
        n <= objects.len(),
        forall|k: int| 0 <= k < n ==> settled(#[trigger] objects[k], r, lo, ray),
    ensures
        is_nearest(
            scan_spec(objects, n, r, Interval { min: lo, max: hi }, ray),
            objects,
            Set::new(|k: int| 0 <= k < n),
            r,
            lo,
            hi,
            ray,
        ),
    decreases n,
{
    let ray_t = Interval { min: lo, max: hi };
    if n == 0 {
    } else {
        let before = scan_spec(objects, (n - 1) as nat, r, ray_t, ray);
        lemma_scan_is_nearest(objects, (n - 1) as nat, r, lo, hi, ray);
        let reach = narrowed(ray_t, before);
        lemma_one(objects, n - 1, r, lo, reach.max, ray);
        lemma_join(
            objects,
            before,
            objects[n - 1].hit_spec(r, reach, ray),
            Set::new(|k: int| 0 <= k < (n - 1) as nat),
            set![n - 1],
            r,
            lo,
            hi,
            ray,
        );
        assert(Set::new(|k: int| 0 <= k < (n - 1) as nat).union(set![n - 1]) =~= Set::new(
            |k: int| 0 <= k < n,
        ));
    }
}

/// The indices that `order` lists from `start` up to `end`.
pub open spec fn listed(order: Seq<usize>, start: int, end: int) -> Set<int> {
    Set::new(|k: int| 0 <= k <= usize::MAX && in_range(order, start, end, k as usize))
}

proof fn lemma_listed_parts(order: Seq<usize>, start: int, mid: int, end: int)
    requires
        start <= mid <= end,
    ensures
        listed(order, start, mid).union(listed(order, mid, end)) =~= listed(order, start, end),
{
    lemma_in_range_parts(order, start, mid, end);
}

proof fn lemma_listed_one(order: Seq<usize>, start: int)
    requires
        0 <= start < order.len(),
    ensures
        listed(order, start, start + 1) =~= set![order[start] as int],
{
    let index = order[start];
    assert(in_range(order, start, start + 1, index)) by {
        assert(order[start] == index);
    }
    assert forall|k: int| #[trigger] listed(order, start, start + 1).contains(k) implies k == index by {
        let i = choose|i: int| start <= i < start + 1 && order[i] == k as usize;
        assert(i == start);
    }
}

proof fn lemma_covered(
    bbox: Aabb,
    objects: Seq<HitObject>,
    order: Seq<usize>,
    start: int,
    end: int,
    k: int,
)
    requires
        tightest(bbox, boxes_of(objects), order, start, end),
        listed(order, start, end).contains(k),
        0 <= k < objects.len(),
    ensures
        encloses(bbox, objects[k].bounds()),
{
    let index = k as usize;
    assert(in_range(order, start, end, index));
    assert(boxes_of(objects)[index as int] == objects[k].bounds());
    assert(tight_on(bbox, boxes_of(objects), order, start, end, 0));
    assert(tight_on(bbox, boxes_of(objects), order, start, end, 1));
    assert(tight_on(bbox, boxes_of(objects), order, start, end, 2));
    assert forall|axis: int| 0 <= axis < 3 implies (#[trigger] bbox.b[axis]).min
        <= objects[k].bounds().b[axis].min && bbox.b[axis].max
        >= objects[k].bounds().b[axis].max by {
        if axis == 0 {
        } else if axis == 1 {
        } else {
        }
    }
}

proof fn lemma_pruned(
    objects: Seq<HitObject>,
    bbox: Aabb,
    members: Set<int>,
    r: Ray,
    lo: i64,
    hi: i64,
    ray: RayModel,
)
    requires
        sound(objects, r, lo, ray),
        forall|k: int|
            0 <= k < objects.len() && members.contains(k) ==> encloses(
                bbox,
                (#[trigger] objects[k]).bounds(),
            ) && settled(objects[k], r, lo, ray),
        !slab_overlap_spec((ray.crossings)(r, bbox), Interval { min: lo, max: hi }),
    ensures
        none_before(objects, members, r, lo, ray, hi),
{
    assert forall|k: int| 0 <= k < objects.len() && members.contains(k) implies not_before(
        nearest_spec(#[trigger] objects[k], r, lo, ray),
        hi,
    ) by {
        let found = objects[k].hit_spec(r, Interval { min: lo, max: hi }, ray);
        let crossed = (ray.crossings)(r, bbox);
        if found is Some {
            assert(slab_overlap_spec(crossed, Interval { min: lo, max: hi }));
        }
    }
}

/// A hierarchy returns the nearest hit among the objects below it, provided
/// that each of them answers from one nearest crossing and that the boxes are
/// sound for the ray.
pub proof fn lemma_tree_is_nearest<F: Fn(&Aabb) -> [i64; 3]>(
    tree: BvhTree,
    order: Seq<usize>,
    start: int,
    end: int,
    objects: Seq<HitObject>,
    extents: &F,
    r: Ray,
    lo: i64,
    hi: i64,
    ray: RayModel,
)
    requires
        built(tree, order, start, end, boxes_of(objects), extents),
        forall|i: int|
            start <= i < end ==> (#[trigger] order[i]) < objects.len() && settled(
                objects[order[i] as int],
                r,
                lo,
                ray,
            ),
        sound(objects, r, lo, ray),
    ensures
        is_nearest(
            tree_spec(tree, objects, r, Interval { min: lo, max: hi }, ray),
            objects,
            listed(order, start, end),
            r,
            lo,
            hi,
            ray,
        ),
    decreases tree,
{
    let ray_t = Interval { min: lo, max: hi };
    let members = listed(order, start, end);
    match tree {
        BvhTree::Leaf { .. } => {},
        BvhTree::Node { left, right, bbox } => {
            assert forall|k: int| 0 <= k < objects.len() && members.contains(k) implies encloses(
                bbox,
                (#[trigger] objects[k]).bounds(),
            ) && settled(objects[k], r, lo, ray) by {
                lemma_covered(bbox, objects, order, start, end, k);
                let i = choose|i: int| start <= i < end && order[i] == k as usize;
                assert(settled(objects[order[i] as int], r, lo, ray));
            }
            if !slab_overlap_spec((ray.crossings)(r, bbox), ray_t) {
                lemma_pruned(objects, bbox, members, r, lo, hi, ray);
            } else {
                let near = tree_spec(*left, objects, r, ray_t, ray);
                let reach = narrowed(ray_t, near);
                let far = tree_spec(*right, objects, r, reach, ray);
                if end - start == 1 {
                    let a = order[start] as int;
                    lemma_one(objects, a, r, lo, hi, ray);
                    lemma_one(objects, a, r, lo, reach.max, ray);
                    lemma_join(objects, near, far, set![a], set![a], r, lo, hi, ray);
                    lemma_listed_one(order, start);
                    assert(set![a].union(set![a]) =~= members);
                } else if end - start == 2 {
                    let a = order[start] as int;
                    let b = order[start + 1] as int;
                    lemma_one(objects, a, r, lo, hi, ray);
                    lemma_one(objects, b, r, lo, reach.max, ray);
                    lemma_join(objects, near, far, set![a], set![b], r, lo, hi, ray);
                    lemma_listed_one(order, start);
                    lemma_listed_one(order, start + 1);
                    lemma_listed_parts(order, start, start + 1, end);
                    assert(set![a].union(set![b]) =~= members);
                } else {
                    let mid = start + (end - start) / 2;
                    lemma_tree_is_nearest(*left, order, start, mid, objects, extents, r, lo, hi, ray);
                    lemma_tree_is_nearest(
                        *right,
                        order,
                        mid,
                        end,
                        objects,
                        extents,
                        r,
                        lo,
                        reach.max,
                        ray,
                    );
                    lemma_join(
                        objects,
                        near,
                        far,
                        listed(order, start, mid),
                        listed(order, mid, end),
                        r,
                        lo,
                        hi,
                        ray,
                    );
                    lemma_listed_parts(order, start, mid, end);
                }
            }
        },
    }
}

proof fn lemma_window(
    found: Option<HitRecord>,
    objects: Seq<HitObject>,
    start: int,
    end: int,
    r: Ray,
    lo: i64,
    hi: i64,
    ray: RayModel,
)
    requires
        0 <= start <= end <= objects.len(),
        is_nearest(
            found,
            objects.subrange(start, end),
            Set::new(|k: int| 0 <= k < end - start),
            r,
            lo,
            hi,
            ray,
        ),
    ensures
        is_nearest(found, objects, Set::new(|k: int| start <= k < end), r, lo, hi, ray),
{
    let part = objects.subrange(start, end);
    let inner = Set::new(|k: int| 0 <= k < end - start);
    let outer = Set::new(|k: int| start <= k < end);
    let bound = match found {
        Some(rec) => rec.t,
        None => hi,
    };
    assert forall|k: int| 0 <= k < objects.len() && outer.contains(k) implies not_before(
        nearest_spec(#[trigger] objects[k], r, lo, ray),
        bound,
    ) by {
        assert(inner.contains(k - start));
        assert(part[k - start] == objects[k]);
    }
    if let Some(rec) = found {
        let k = choose|k: int|
            0 <= k < part.len() && inner.contains(k) && nearest_spec(#[trigger] part[k], r, lo, ray)
                == Some(rec.t);
        assert(outer.contains(k + start));
        assert(objects[k + start] == part[k]);
    }
}

/// A hierarchy built over a stretch of a list of objects and a scan of that
/// stretch agree, for every ray and every range, on whether the ray hits and on
/// the ray parameter of the nearest hit. This holds for rays that every object
/// of the stretch answers from one nearest crossing and for which the boxes
/// are sound.
pub proof fn lemma_hierarchy_matches_scan<F: Fn(&Aabb) -> [i64; 3]>(
    root: HitObject,
    list: HitObject,
    objects: Seq<HitObject>,
    start: int,
    end: int,
    extents: &F,
    r: Ray,
    ray_t: Interval,
    ray: RayModel,
)
    requires
        is_hierarchy(root, objects, start, end, extents),
        list matches HitObject::HittableList { objects: scanned, .. } && scanned@
            == objects.subrange(start, end),
        forall|k: int| start <= k < end ==> settled(#[trigger] objects[k], r, ray_t.min, ray),
        sound(objects, r, ray_t.min, ray),
    ensures
        same_distance(root.hit_spec(r, ray_t, ray), list.hit_spec(r, ray_t, ray)),
{
    let (lo, hi) = (ray_t.min, ray_t.max);
    assert(ray_t == Interval { min: lo, max: hi });
    let tree = root->tree;
    let order = choose|order: Seq<usize>|
        order.len() == objects.len() && arranged(order, start, end) && #[trigger] built(
            tree,
            order,
            start,
            end,
            boxes_of(objects),
            extents,
        );
    assert(0 <= start < end <= objects.len());
    assert forall|i: int| start <= i < end implies (#[trigger] order[i]) < objects.len()
        && settled(objects[order[i] as int], r, lo, ray) by {
        assert(in_range(order, start, end, order[i]));
    }
    lemma_tree_is_nearest(tree, order, start, end, objects, extents, r, lo, hi, ray);
    let part = objects.subrange(start, end);
    assert forall|k: int| 0 <= k < part.len() implies settled(#[trigger] part[k], r, lo, ray) by {
        assert(part[k] == objects[start + k]);
    }
    lemma_scan_is_nearest(part, part.len(), r, lo, hi, ray);
    assert(Set::new(|k: int| 0 <= k < part.len()) =~= Set::new(|k: int| 0 <= k < end - start));
    lemma_window(list.hit_spec(r, ray_t, ray), objects, start, end, r, lo, hi, ray);
    assert(objects.len() == root->Bvh_objects.len());
    assert forall|k: int| start <= k < end implies #[trigger] listed(order, start, end).contains(
        k,
    ) by {
        let index = k as usize;
        assert(in_range(order, start, end, index) <==> start <= index < end);
    }
    assert(listed(order, start, end) =~= Set::new(|k: int| start <= k < end));
    lemma_one_answer(
        root.hit_spec(r, ray_t, ray),
        list.hit_spec(r, ray_t, ray),
        objects,
        listed(order, start, end),
        r,
        lo,
        hi,
        ray,
    );
}

/// What comes back from a moved or turned object keeps its ray parameter, and
/// a ray that is scattered inside a medium is scattered on the stretch that it
/// was given.
pub open spec fn respects(ray: RayModel) -> bool {
    &&& forall|object: HitObject, rec: HitRecord|
        (#[trigger] (ray.outbound)(object, rec)).t == rec.t
    &&& forall|r: Ray, object: HitObject, enter: i64, exit: i64|
        (#[trigger] (ray.flight)(r, object, enter, exit)).hit_distance <= (ray.flight)(
            r,
            object,
            enter,
            exit,
        ).distance_inside_boundary ==> enter <= (ray.flight)(r, object, enter, exit).t <= exit
}

/// A sphere is not hit by a ray whose quadratic has a negative discriminant,
/// and where it is hit, it is hit strictly inside the range, at one of the two
/// roots of the quadratic.
pub proof fn lemma_sphere_hit(object: HitObject, r: Ray, ray_t: Interval, ray: RayModel)
    requires
        object is Sphere,
    ensures
        (ray.probe)(r, object) matches Probe::Sphere { discriminant, near, far } ==> (
        discriminant < 0 ==> object.hit_spec(r, ray_t, ray) is None) && (object.hit_spec(
            r,
            ray_t,
            ray,
        ) matches Some(rec) ==> discriminant >= 0 && ray_t.surrounds_spec(rec.t) && (rec.t == near
            || rec.t == far)),
{
}

/// Every object keeps to the range it is asked about: whatever it is hit by,
/// it is hit within the range.
pub proof fn lemma_hit_within(object: HitObject, r: Ray, ray_t: Interval, ray: RayModel)
    requires
        respects(ray),
    ensures
        object.hit_spec(r, ray_t, ray) matches Some(rec) ==> ray_t.contains_spec(rec.t),
    decreases object, 0nat,
{
    match object {
        HitObject::HittableList { objects, .. } => {
            lemma_scan_within(objects@, objects@.len(), r, ray_t, ray);
        },
        HitObject::Bvh { objects, tree, .. } => {
            lemma_tree_within(tree, objects@, r, ray_t, ray);
        },
        HitObject::Translate { object: inner, .. } => {
            lemma_hit_within(*inner, (ray.inbound)(r, object), ray_t, ray);
        },
        HitObject::Rotate { object: inner, .. } => {
            lemma_hit_within(*inner, (ray.inbound)(r, object), ray_t, ray);
        },
        HitObject::ConstantMedium { boundary, .. } => {
            if let Some(first) = boundary.hit_spec(r, Interval::universe_spec(), ray) {
                if let Some(second) = boundary.hit_spec(r, beyond_spec(first.t, ray), ray) {
                    if let Some((enter, exit)) = medium_span_spec(first.t, second.t, ray_t) {
                        let flight = (ray.flight)(r, object, enter, exit);
                        assert(flight.hit_distance <= flight.distance_inside_boundary ==> enter
                            <= flight.t <= exit);
                    }
                }
            }
        },
        HitObject::Sphere { .. } => {},
        HitObject::Quad { .. } => {},
        HitObject::Triangle { .. } => {},
    }
}

proof fn lemma_scan_within(
    objects: Seq<HitObject>,
    n: nat,
    r: Ray,
    ray_t: Interval,
    ray: RayModel,
)
    requires
        respects(ray),
    ensures
        scan_spec(objects, n, r, ray_t, ray) matches Some(rec) ==> ray_t.contains_spec(rec.t),
    decreases objects, n,
{
    if n == 0 || n > objects.len() {
    } else {
        lemma_scan_within(objects, (n - 1) as nat, r, ray_t, ray);
        let before = scan_spec(objects, (n - 1) as nat, r, ray_t, ray);
        lemma_hit_within(objects[n - 1], r, narrowed(ray_t, before), ray);
    }
}

proof fn lemma_tree_within(
    tree: BvhTree,
    objects: Seq<HitObject>,
    r: Ray,
    ray_t: Interval,
    ray: RayModel,
)
    requires
        respects(ray),
    ensures
        tree_spec(tree, objects, r, ray_t, ray) matches Some(rec) ==> ray_t.contains_spec(rec.t),
    decreases objects, 0nat, tree,
{
    match tree {
        BvhTree::Leaf { index } => {
            if index < objects.len() {
                lemma_hit_within(objects[index as int], r, ray_t, ray);
            }
        },
        BvhTree::Node { left, right, bbox } => {
            lemma_tree_within(*left, objects, r, ray_t, ray);
            let near = tree_spec(*left, objects, r, ray_t, ray);
            lemma_tree_within(*right, objects, r, narrowed(ray_t, near), ray);
        },
    }
}

} // verus!
