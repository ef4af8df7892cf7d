//! Axis-aligned bounding boxes over ranks.

use vstd::prelude::*;
use crate::rtweekend::interval::Interval;
use crate::rtweekend::ray::Ray;
use crate::rtweekend::vec3::Point3;

verus! {

/// Rank of 0.0001: the least extent that a box may have on an axis.
pub const MINIMUM: i64 = 0x3F1A_36E2_EB1C_432D;

/// A box: one interval per axis.
#[derive(Clone, Copy, Debug, PartialEq, Eq)]
pub struct Aabb {
    pub b: [Interval; 3],
}

/// The smaller of two ranks.
pub open spec fn lower(a: i64, b: i64) -> i64 {
    if a < b {
        a
    } else {
        b
    }
}

/// The larger of two ranks.
pub open spec fn higher(a: i64, b: i64) -> i64 {
    if a > b {
        a
    } else {
        b
    }
}

/// The interval spanned by two ranks given in either order.
pub open spec fn span_spec(a: i64, b: i64) -> Interval {
    Interval { min: lower(a, b), max: higher(a, b) }
}

/// The smallest interval that covers both arguments.
pub open spec fn hull_spec(a: Interval, b: Interval) -> Interval {
    Interval { min: lower(a.min, b.min), max: higher(a.max, b.max) }
}

/// The smallest box that covers both arguments.
pub open spec fn merge_spec(a: Aabb, b: Aabb) -> Aabb {
    Aabb { b: [hull_spec(a.b[0], b.b[0]), hull_spec(a.b[1], b.b[1]), hull_spec(a.b[2], b.b[2])] }
}

/// The index of the largest of three extents, the lowest index winning a tie.
pub open spec fn longest_of_spec(extents: [i64; 3]) -> u32 {
    if extents[0] >= extents[1] && extents[0] >= extents[2] {
        0
    } else if extents[1] >= extents[2] {
        1
    } else {
        2
    }
}

/// The earlier of the two ray parameters at which a ray crosses the planes of a
/// slab.
pub open spec fn entry_of(crossing: (i64, i64)) -> i64 {
    lower(crossing.0, crossing.1)
}

/// The later of the two ray parameters at which a ray crosses the planes of a
/// slab.
pub open spec fn exit_of(crossing: (i64, i64)) -> i64 {
    higher(crossing.0, crossing.1)
}

/// The part of `ray_t` that lies inside all three slabs is not empty: the
/// latest entry, the start of `ray_t` counted in, comes strictly before the
/// earliest exit, the end of `ray_t` counted in.
pub open spec fn slab_overlap_spec(crossings: [(i64, i64); 3], ray_t: Interval) -> bool {
    higher(higher(higher(ray_t.min, entry_of(crossings[0])), entry_of(crossings[1])), entry_of(crossings[2]))
        < lower(lower(lower(ray_t.max, exit_of(crossings[0])), exit_of(crossings[1])), exit_of(crossings[2]))
}

impl Aabb {
    /// The box that covers nothing: the empty interval on every axis.
    pub open spec fn empty_spec() -> Aabb {
        Aabb { b: [Interval::empty_spec(), Interval::empty_spec(), Interval::empty_spec()] }
    }

    /// No axis of the box runs backwards.
    pub open spec fn ordered(self) -> bool {
        forall|axis: int| 0 <= axis < 3 ==> (#[trigger] self.b[axis]).min <= self.b[axis].max
    }

    /// What `pad_to_minimums` makes of the box: an axis whose extent is below
    /// `MINIMUM` takes its widened interval, and the others stay.
    pub open spec fn padded_spec(self, extents: [i64; 3], widened: [Interval; 3]) -> Aabb {
        Aabb {
            b: [
                if extents[0] < MINIMUM {
                    widened[0]
                } else {
                    self.b[0]
                },
                if extents[1] < MINIMUM {
                    widened[1]
                } else {
                    self.b[1]
                },
                if extents[2] < MINIMUM {
                    widened[2]
                } else {
                    self.b[2]
                },
            ],
        }
    }

    /// Widens the axes on which the box is too thin for the slab test.
    /// `extents` holds the extent of the box on each axis and `widened` the
    /// interval that each axis takes if it is too thin.
    pub fn pad_to_minimums(&mut self, extents: &[i64; 3], widened: &[Interval; 3])
        ensures
            *final(self) == old(self).padded_spec(*extents, *widened),
    {
        if extents[0] < MINIMUM {
            self.b[0] = widened[0];
        }
        if extents[1] < MINIMUM {
            self.b[1] = widened[1];
        }
        if extents[2] < MINIMUM {
            self.b[2] = widened[2];
        }
        proof {
            assert(final(self).b =~= old(self).padded_spec(*extents, *widened).b);
        }
    }

    pub fn empty() -> (r: Aabb)
        ensures
            r == Self::empty_spec(),
    {
        let e = Interval::empty();
        let r = Aabb { b: [e, e, e] };
        assert(r.b =~= Self::empty_spec().b);
        r
    }

    /// The axis on which the box is longest, the lowest axis winning a tie.
    /// The extents come from `extents`, which measures the box on each axis.
    pub fn longest_axis<F: Fn(&Aabb) -> [i64; 3]>(&self, extents: &F) -> (axis: u32)
        requires
            extents.requires((self,)),
        ensures
            exists|measured: [i64; 3]| #[trigger]
                extents.ensures((self,), measured) && axis == longest_of_spec(measured),
    {
        let measured = extents(self);
        longest_of(&measured)
    }

    /// The ray `r` passes through the box within `ray_t`. `crossings` gives,
    /// for each axis, the two ray parameters at which the ray crosses the
    /// planes of the box.
    pub fn hit<F: Fn(&Ray, &Aabb) -> [(i64, i64); 3]>(
        &self,
        r: &Ray,
        ray_t: &Interval,
        crossings: &F,
    ) -> (inside: bool)
        requires
            crossings.requires((r, self)),
        ensures
            exists|crossed: [(i64, i64); 3]| #[trigger]
                crossings.ensures((r, self), crossed) && inside == slab_overlap_spec(
                    crossed,
                    *ray_t,
                ),
    {
        let crossed = crossings(r, self);
        slab_overlap(&crossed, ray_t)
    }
}

/// The index of the largest of three extents, the lowest index winning a tie.
pub fn longest_of(extents: &[i64; 3]) -> (axis: u32)
    ensures
        axis == longest_of_spec(*extents),
{
    if extents[0] >= extents[1] && extents[0] >= extents[2] {
        0
    } else if extents[1] >= extents[2] {
        1
    } else {
        2
    }
}

/// The slab test: narrows `ray_t` by the crossings of each axis in turn and
/// reports whether anything is left.
pub fn slab_overlap(crossings: &[(i64, i64); 3], ray_t: &Interval) -> (r: bool)
    ensures
        r == slab_overlap_spec(*crossings, *ray_t),
{
    let mut min = ray_t.min;
    let mut max = ray_t.max;
    let (t0, t1) = crossings[0];
    if t0 < t1 {
        if t0 > min {
            min = t0;
        }
        if t1 < max {
            max = t1;
        }
    } else {
        if t1 > min {
            min = t1;
        }
        if t0 < max {
            max = t0;
        }
    }
    let (t0, t1) = crossings[1];
    if t0 < t1 {
        if t0 > min {
            min = t0;
        }
        if t1 < max {
            max = t1;
        }
    } else {
        if t1 > min {
            min = t1;
        }
        if t0 < max {
            max = t0;
        }
    }
    let (t0, t1) = crossings[2];
    if t0 < t1 {
        if t0 > min {
            min = t0;
        }
        if t1 < max {
            max = t1;
        }
    } else {
        if t1 > min {
            min = t1;
        }
        if t0 < max {
            max = t0;
        }
    }
    min < max
}

/// The box between the corners `a` and `b`, given in any order.
pub open spec fn spanned_spec(a: Point3, b: Point3) -> Aabb {
    Aabb { b: [span_spec(a.e[0], b.e[0]), span_spec(a.e[1], b.e[1]), span_spec(a.e[2], b.e[2])] }
}

/// The box between the corners `a` and `b`, padded as `measured` says: the
/// extents of the box and, for each axis, the interval that it takes if it is
/// too thin.
pub open spec fn boxed_spec(a: Point3, b: Point3, measured: ([i64; 3], [Interval; 3])) -> Aabb {
    spanned_spec(a, b).padded_spec(measured.0, measured.1)
}

/// The box between the corners `a` and `b`, given in any order.
pub fn spanned(a: &Point3, b: &Point3) -> (r: Aabb)
    ensures
        r == spanned_spec(*a, *b),
        r.ordered(),
{
    let mut x = Interval { min: a.e[0], max: b.e[0] };
    if x.min > x.max {
        x = Interval { min: x.max, max: x.min };
    }
    let mut y = Interval { min: a.e[1], max: b.e[1] };
    if y.min > y.max {
        y = Interval { min: y.max, max: y.min };
    }
    let mut z = Interval { min: a.e[2], max: b.e[2] };
    if z.min > z.max {
        z = Interval { min: z.max, max: z.min };
    }
    let r = Aabb { b: [x, y, z] };
    assert(r.b =~= spanned_spec(*a, *b).b);
    r
}

/// The box with corners `a` and `b`, given in any order, no axis thinner than
/// `MINIMUM`. `measure` gives the extents of a box and, for each axis, the
/// interval that it takes if it is too thin.
pub fn point_to_aabb<T: Fn(&Aabb) -> ([i64; 3], [Interval; 3])>(
    a: &Point3,
    b: &Point3,
    measure: &T,
) -> (r: Aabb)
    requires
        forall|bbox: Aabb| #[trigger] measure.requires((&bbox,)),
    ensures
        exists|measured: ([i64; 3], [Interval; 3])| #[trigger]
            measure.ensures((&spanned_spec(*a, *b),), measured) && r == boxed_spec(
                *a,
                *b,
                measured,
            ),
{
    let mut aabb = spanned(a, b);
    let measured = measure(&aabb);
    aabb.pad_to_minimums(&measured.0, &measured.1);
    aabb
}

/// The smallest box that covers both `a` and `b`.
pub fn merge(a: &Aabb, b: &Aabb) -> (r: Aabb)
    ensures
        r == merge_spec(*a, *b),
{
    let empty = Interval::empty();
    let mut new_b = [empty, empty, empty];
    let mut i: usize = 0;
    while i < 3
        invariant
            i <= 3,
            forall|k: int| 0 <= k < i ==> new_b[k] == hull_spec(a.b[k], b.b[k]),
        decreases 3 - i,
    {
        let min = if a.b[i].min < b.b[i].min {
            a.b[i].min
        } else {
            b.b[i].min
        };
        let max = if a.b[i].max > b.b[i].max {
            a.b[i].max
        } else {
            b.b[i].max
        };
        new_b[i] = Interval { min, max };
        i += 1;
    }
    let r = Aabb { b: new_b };
    assert(r.b =~= merge_spec(*a, *b).b);
    r
}

/// Merging is commutative.
pub proof fn lemma_merge_commutative(a: Aabb, b: Aabb)
    ensures
        merge_spec(a, b) == merge_spec(b, a),
{
    assert(merge_spec(a, b).b =~= merge_spec(b, a).b);
}

/// Merging is associative.
pub proof fn lemma_merge_associative(a: Aabb, b: Aabb, c: Aabb)
    ensures
        merge_spec(merge_spec(a, b), c) == merge_spec(a, merge_spec(b, c)),
{
    assert(merge_spec(merge_spec(a, b), c).b =~= merge_spec(a, merge_spec(b, c)).b);
}

/// Merging a box with itself gives the box back.
pub proof fn lemma_merge_idempotent(a: Aabb)
    ensures
        merge_spec(a, a) == a,
{
    assert(merge_spec(a, a).b =~= a.b);
}

/// The empty box is the identity of merging for every box whose lower bounds
/// do not exceed `INF` and whose upper bounds do not fall below `NEG_INF`.
pub proof fn lemma_merge_empty(a: Aabb)
    requires
        forall|axis: int|
            0 <= axis < 3 ==> (#[trigger] a.b[axis]).min <= Interval::empty_spec().min
                && a.b[axis].max >= Interval::empty_spec().max,
    ensures
        merge_spec(a, Aabb::empty_spec()) == a,
        merge_spec(Aabb::empty_spec(), a) == a,
{
    assert(a.b[0].min <= Interval::empty_spec().min);
    assert(a.b[1].min <= Interval::empty_spec().min);
    assert(a.b[2].min <= Interval::empty_spec().min);
    assert(merge_spec(a, Aabb::empty_spec()).b =~= a.b);
    assert(merge_spec(Aabb::empty_spec(), a).b =~= a.b);
}

/// The axis that `longest_of_spec` names has the largest extent, and every axis
/// before it has a strictly smaller one.
pub proof fn lemma_longest_of(extents: [i64; 3])
    ensures
        longest_of_spec(extents) < 3,
        forall|axis: int|
            0 <= axis < 3 ==> #[trigger] extents[axis] <= extents[longest_of_spec(extents) as int],
        forall|axis: int|
            0 <= axis < longest_of_spec(extents) ==> #[trigger] extents[axis]
                < extents[longest_of_spec(extents) as int],
{
}

} // verus!
