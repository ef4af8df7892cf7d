use raytracer::aabb::{longest_of, merge, point_to_aabb, slab_overlap, spanned, Aabb};
use raytracer::rtweekend::interval::Interval;
use raytracer::rtweekend::ray::Ray;
use raytracer::rtweekend::scalar::{bits_of_rank, negate, rank_of_bits, INFINITY, ONE};
use raytracer::rtweekend::vec3::Vec3;
use raytracer::rtweekend::{INF, NEG_INF};

fn rank(x: f64) -> i64 {
    rank_of_bits(x.to_bits())
}

fn value(rank: i64) -> f64 {
    f64::from_bits(bits_of_rank(rank))
}

fn boxed(lo: [f64; 3], hi: [f64; 3]) -> Aabb {
    Aabb {
        b: [
            Interval { min: rank(lo[0]), max: rank(hi[0]) },
            Interval { min: rank(lo[1]), max: rank(hi[1]) },
            Interval { min: rank(lo[2]), max: rank(hi[2]) },
        ],
    }
}

#[test]
fn ranks_of_known_values() {
    assert_eq!(rank(0.0), 0);
    assert_eq!(rank(-0.0), 0);
    assert_eq!(rank(1.0), ONE);
    assert_eq!(rank(-1.0), -ONE);
    assert_eq!(rank(f64::INFINITY), INFINITY);
    assert_eq!(rank(f64::NEG_INFINITY), -INFINITY);
    assert_eq!(rank(1e18), INF);
    assert_eq!(rank(-1e18), NEG_INF);
}

#[test]
fn ranks_round_trip() {
    for x in [0.0, 1.0, -1.0, 0.1, -2.5e-7, 1e18, 3.75, f64::MAX, f64::MIN_POSITIVE, f64::INFINITY] {
        assert_eq!(value(rank(x)), x);
    }
    assert!(value(rank(f64::NAN)).is_nan());
    assert_eq!(value(rank(-0.0)).to_bits(), 0);
}

#[test]
fn ranks_order_as_values() {
    let xs = [f64::NEG_INFINITY, -1e18, -3.5, -1e-300, -0.0, 0.0, 1e-300, 0.5, 2.0, 1e18, f64::INFINITY];
    for a in xs {
        for b in xs {
            assert_eq!(rank(a) < rank(b), a < b);
            assert_eq!(rank(a) == rank(b), a == b);
        }
    }
}

#[test]
fn negate_turns_the_sign() {
    assert_eq!(negate(rank(2.5)), rank(-2.5));
    assert_eq!(negate(rank(-1e-8)), rank(1e-8));
    assert_eq!(negate(0), 0);
    assert_eq!(negate(i64::MIN), i64::MIN);
}

#[test]
fn interval_membership() {
    let unit = Interval { min: rank(0.0), max: rank(1.0) };
    assert!(unit.contains(rank(0.0)));
    assert!(unit.contains(rank(1.0)));
    assert!(!unit.surrounds(rank(0.0)));
    assert!(!unit.surrounds(rank(1.0)));
    assert!(unit.surrounds(rank(0.5)));
    assert!(!unit.contains(rank(-1e-12)));
    assert!(!unit.contains(rank(f64::NAN)));
}

#[test]
fn interval_clamp() {
    let intensity = Interval { min: rank(0.0), max: rank(0.999) };
    assert_eq!(intensity.clamp(rank(-3.0)), rank(0.0));
    assert_eq!(intensity.clamp(rank(7.0)), rank(0.999));
    assert_eq!(intensity.clamp(rank(0.25)), rank(0.25));
}

#[test]
fn empty_and_universe() {
    assert_eq!(Interval::empty(), Interval { min: rank(1e18), max: rank(-1e18) });
    assert_eq!(Interval::universe(), Interval { min: rank(-1e18), max: rank(1e18) });
    assert_eq!(Aabb::empty().b[2], Interval::empty());
}

#[test]
fn merge_is_the_union() {
    let a = boxed([0.0, -1.0, 2.0], [1.0, 1.0, 3.0]);
    let b = boxed([-2.0, 0.0, 2.5], [0.5, 4.0, 2.75]);
    let expected = boxed([-2.0, -1.0, 2.0], [1.0, 4.0, 3.0]);
    assert_eq!(merge(&a, &b), expected);
    assert_eq!(merge(&b, &a), expected);
}

#[test]
fn merge_laws_on_values() {
    let a = boxed([0.0, -1.0, 2.0], [1.0, 1.0, 3.0]);
    let b = boxed([-2.0, 0.0, 2.5], [0.5, 4.0, 2.75]);
    let c = boxed([9.0, 9.0, 9.0], [10.0, 10.0, 10.0]);
    assert_eq!(merge(&merge(&a, &b), &c), merge(&a, &merge(&b, &c)));
    assert_eq!(merge(&a, &a), a);
    assert_eq!(merge(&a, &Aabb::empty()), a);
    assert_eq!(merge(&Aabb::empty(), &a), a);
}

#[test]
fn merge_with_empty_caps_at_the_stand_in_for_infinity() {
    let far = boxed([2e18, 0.0, 0.0], [3e18, 1.0, 1.0]);
    let merged = merge(&far, &Aabb::empty());
    assert_eq!(merged.b[0].min, rank(1e18));
    assert_eq!(merged.b[0].max, rank(3e18));
}

#[test]
fn spanned_orders_the_corners() {
    let a = Vec3 { e: [rank(3.0), rank(-1.0), rank(0.0)] };
    let b = Vec3 { e: [rank(1.0), rank(2.0), rank(0.0)] };
    assert_eq!(spanned(&a, &b), boxed([1.0, -1.0, 0.0], [3.0, 2.0, 0.0]));
    assert_eq!(spanned(&b, &a), boxed([1.0, -1.0, 0.0], [3.0, 2.0, 0.0]));
}

fn measure(bbox: &Aabb) -> ([i64; 3], [Interval; 3]) {
    let mut extents = [0; 3];
    let mut widened = bbox.b;
    for axis in 0..3 {
        let (min, max) = (value(bbox.b[axis].min), value(bbox.b[axis].max));
        extents[axis] = rank(max - min);
        widened[axis] = Interval { min: rank(min - 0.00005), max: rank(max + 0.00005) };
    }
    (extents, widened)
}

#[test]
fn point_to_aabb_orders_and_pads() {
    let a = Vec3 { e: [rank(3.0), rank(-1.0), rank(0.0)] };
    let b = Vec3 { e: [rank(1.0), rank(2.0), rank(0.0)] };
    let expected = boxed([1.0, -1.0, -0.00005], [3.0, 2.0, 0.00005]);
    assert_eq!(point_to_aabb(&a, &b, &measure), expected);
    assert_eq!(point_to_aabb(&b, &a, &measure), expected);
    let point = point_to_aabb(&a, &a, &measure);
    assert_eq!(point, boxed([2.99995, -1.00005, -0.00005], [3.00005, -0.99995, 0.00005]));
    let thick = Vec3 { e: [rank(1.0), rank(2.0), rank(0.0001)] };
    assert_eq!(point_to_aabb(&a, &thick, &measure), boxed([1.0, -1.0, 0.0], [3.0, 2.0, 0.0001]));
}

#[test]
fn longest_axis_picks_the_largest_extent() {
    assert_eq!(longest_of(&[rank(3.0), rank(1.0), rank(2.0)]), 0);
    assert_eq!(longest_of(&[rank(1.0), rank(3.0), rank(2.0)]), 1);
    assert_eq!(longest_of(&[rank(1.0), rank(2.0), rank(3.0)]), 2);
}

#[test]
fn longest_axis_ties_go_to_the_lowest_axis() {
    assert_eq!(longest_of(&[rank(2.0), rank(2.0), rank(1.0)]), 0);
    assert_eq!(longest_of(&[rank(2.0), rank(1.0), rank(2.0)]), 0);
    assert_eq!(longest_of(&[rank(1.0), rank(2.0), rank(2.0)]), 1);
    assert_eq!(longest_of(&[rank(2.0), rank(2.0), rank(2.0)]), 0);
}

#[test]
fn longest_axis_measures_through_the_closure() {
    let bbox = boxed([0.0, 0.0, 0.0], [1.0, 5.0, 2.0]);
    let extents = |b: &Aabb| {
        [
            rank(value(b.b[0].max) - value(b.b[0].min)),
            rank(value(b.b[1].max) - value(b.b[1].min)),
            rank(value(b.b[2].max) - value(b.b[2].min)),
        ]
    };
    assert_eq!(bbox.longest_axis(&extents), 1);
}

fn crossings_of(bbox: &Aabb, origin: [f64; 3], direction: [f64; 3]) -> [(i64, i64); 3] {
    let mut out = [(0, 0); 3];
    for axis in 0..3 {
        let adinv = 1.0 / direction[axis];
        let t0 = (value(bbox.b[axis].min) - origin[axis]) * adinv;
        let t1 = (value(bbox.b[axis].max) - origin[axis]) * adinv;
        out[axis] = (rank(t0), rank(t1));
    }
    out
}

#[test]
fn slab_test_hits_and_misses() {
    let bbox = boxed([1.0, -1.0, -1.0], [2.0, 1.0, 1.0]);
    let ray_t = Interval { min: rank(0.001), max: rank(1e18) };
    let through = crossings_of(&bbox, [0.0, 0.0, 0.0], [1.0, 0.0, 0.0]);
    assert!(slab_overlap(&through, &ray_t));
    let away = crossings_of(&bbox, [0.0, 0.0, 0.0], [-1.0, 0.0, 0.0]);
    assert!(!slab_overlap(&away, &ray_t));
    let beside = crossings_of(&bbox, [0.0, 5.0, 0.0], [1.0, 0.0, 0.0]);
    assert!(!slab_overlap(&beside, &ray_t));
    let short = Interval { min: rank(0.001), max: rank(0.5) };
    assert!(!slab_overlap(&through, &short));
    let measure = |r: &Ray, b: &Aabb| {
        let origin = [value(r.ori.e[0]), value(r.ori.e[1]), value(r.ori.e[2])];
        let direction = [value(r.dir.e[0]), value(r.dir.e[1]), value(r.dir.e[2])];
        crossings_of(b, origin, direction)
    };
    let slanted = Ray {
        dir: Vec3 { e: [rank(1.0), rank(0.1), rank(0.1)] },
        ori: Vec3 { e: [0, 0, 0] },
        tm: 0,
    };
    assert!(bbox.hit(&slanted, &ray_t, &measure));
    let steep = Ray { dir: Vec3 { e: [rank(0.1), rank(1.0), rank(0.1)] }, ..slanted };
    assert!(!bbox.hit(&steep, &ray_t, &measure));
}

#[test]
fn slab_test_with_a_ray_along_an_axis() {
    let bbox = boxed([1.0, -1.0, -1.0], [2.0, 1.0, 1.0]);
    let ray_t = Interval { min: rank(0.001), max: rank(1e18) };
    let inside = crossings_of(&bbox, [0.0, 0.5, -0.5], [1.0, 0.0, 0.0]);
    assert_eq!(inside[1], (rank(f64::NEG_INFINITY), rank(f64::INFINITY)));
    assert!(slab_overlap(&inside, &ray_t));
    let outside = crossings_of(&bbox, [0.0, 1.5, -0.5], [1.0, 0.0, 0.0]);
    assert_eq!(outside[1], (rank(f64::NEG_INFINITY), rank(f64::NEG_INFINITY)));
    assert!(!slab_overlap(&outside, &ray_t));
}

#[test]
fn slab_test_needs_a_stretch_that_is_not_empty() {
    let ray_t = Interval { min: rank(1.0), max: rank(2.0) };
    let touching = [(rank(2.0), rank(3.0)), (rank(0.0), rank(9.0)), (rank(0.0), rank(9.0))];
    assert!(!slab_overlap(&touching, &ray_t));
    let reversed = [(rank(3.0), rank(1.5)), (rank(9.0), rank(0.0)), (rank(0.0), rank(9.0))];
    assert!(slab_overlap(&reversed, &ray_t));
    let empty_range = Interval { min: rank(2.0), max: rank(1.0) };
    assert!(!slab_overlap(&reversed, &empty_range));
}

#[test]
fn thin_axes_are_padded() {
    let mut bbox = boxed([0.0, 0.0, 5.0], [1.0, 0.00005, 5.0]);
    let extents = [rank(1.0), rank(0.00005), rank(0.0)];
    let widened = [
        Interval { min: rank(-0.00005), max: rank(1.00005) },
        Interval { min: rank(-0.00005), max: rank(0.0001) },
        Interval { min: rank(4.99995), max: rank(5.00005) },
    ];
    bbox.pad_to_minimums(&extents, &widened);
    assert_eq!(bbox.b[0], Interval { min: rank(0.0), max: rank(1.0) });
    assert_eq!(bbox.b[1], widened[1]);
    assert_eq!(bbox.b[2], widened[2]);
    let mut wide = boxed([0.0, 0.0, 0.0], [1.0, 1.0, 0.0001]);
    let before = wide;
    wide.pad_to_minimums(&[rank(1.0), rank(1.0), rank(0.0001)], &widened);
    assert_eq!(wide, before);
}

#[test]
fn near_zero_vectors() {
    assert!(Vec3::new().near_zero());
    assert!(Vec3 { e: [rank(9e-9), rank(-9e-9), rank(0.0)] }.near_zero());
    assert!(!Vec3 { e: [rank(1e-8), rank(0.0), rank(0.0)] }.near_zero());
    assert!(!Vec3 { e: [rank(0.0), rank(0.0), rank(-1.0)] }.near_zero());
}

#[test]
fn negated_vector() {
    let v = Vec3 { e: [rank(1.0), rank(-2.0), rank(0.0)] };
    assert_eq!(v.negate(), Vec3 { e: [rank(-1.0), rank(2.0), rank(0.0)] });
}
