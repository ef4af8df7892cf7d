use raytracer::hittable_list::hittable::{
    is_interior, medium_span, plane_crossing, sphere_root, triangle_accepts, HitRecord,
};
use raytracer::hittable_list::material::Material;
use raytracer::onb::Onb;
use raytracer::rtweekend::interval::Interval;
use raytracer::rtweekend::ray::Ray;
use raytracer::rtweekend::scalar::{bits_of_rank, rank_of_bits};
use raytracer::rtweekend::vec3::Vec3;

fn rank(x: f64) -> i64 {
    rank_of_bits(x.to_bits())
}

fn value(rank: i64) -> f64 {
    f64::from_bits(bits_of_rank(rank))
}

fn range(lo: f64, hi: f64) -> Interval {
    Interval { min: rank(lo), max: rank(hi) }
}

fn vec3(x: f64, y: f64, z: f64) -> Vec3 {
    Vec3 { e: [rank(x), rank(y), rank(z)] }
}

/// The discriminant and the two roots of the quadratic of a ray and a sphere.
fn quadratic(origin: [f64; 3], dir: [f64; 3], center: [f64; 3], radius: f64) -> (f64, f64, f64) {
    let oc = [center[0] - origin[0], center[1] - origin[1], center[2] - origin[2]];
    let a = dir[0] * dir[0] + dir[1] * dir[1] + dir[2] * dir[2];
    let h = dir[0] * oc[0] + dir[1] * oc[1] + dir[2] * oc[2];
    let c = oc[0] * oc[0] + oc[1] * oc[1] + oc[2] * oc[2] - radius * radius;
    let discriminant = h * h - a * c;
    let sqrtd = discriminant.sqrt();
    (discriminant, (h - sqrtd) / a, (h + sqrtd) / a)
}

#[test]
fn sphere_takes_the_near_root_first() {
    let (d, near, far) = quadratic([0.0, 0.0, 0.0], [0.0, 0.0, -1.0], [0.0, 0.0, -5.0], 1.0);
    assert_eq!(near, 4.0);
    assert_eq!(far, 6.0);
    let t = sphere_root(rank(d), rank(near), rank(far), &range(0.001, 1e18));
    assert_eq!(t, Some(rank(4.0)));
}

#[test]
fn sphere_falls_back_to_the_far_root() {
    let (d, near, far) = quadratic([0.0, 0.0, 0.0], [0.0, 0.0, -1.0], [0.0, 0.0, -5.0], 1.0);
    assert_eq!(sphere_root(rank(d), rank(near), rank(far), &range(4.0, 1e18)), Some(rank(6.0)));
    assert_eq!(sphere_root(rank(d), rank(near), rank(far), &range(4.5, 7.0)), Some(rank(6.0)));
}

#[test]
fn sphere_rejects_both_roots_outside_the_range() {
    let (d, near, far) = quadratic([0.0, 0.0, 0.0], [0.0, 0.0, -1.0], [0.0, 0.0, -5.0], 1.0);
    assert_eq!(sphere_root(rank(d), rank(near), rank(far), &range(0.001, 3.0)), None);
    assert_eq!(sphere_root(rank(d), rank(near), rank(far), &range(6.0, 1e18)), None);
    assert_eq!(sphere_root(rank(d), rank(near), rank(far), &range(0.001, 4.0)), None);
}

#[test]
fn sphere_negative_discriminant_never_hits() {
    let (d, near, far) = quadratic([0.0, 3.0, 0.0], [0.0, 0.0, -1.0], [0.0, 0.0, -5.0], 1.0);
    assert!(d < 0.0);
    assert!(near.is_nan() && far.is_nan());
    assert_eq!(sphere_root(rank(d), rank(near), rank(far), &range(0.001, 1e18)), None);
    assert_eq!(sphere_root(rank(-1e-300), rank(1.0), rank(2.0), &range(0.0, 10.0)), None);
}

#[test]
fn sphere_hit_point_lies_on_the_sphere() {
    let origin = [0.3, -0.2, 4.0];
    let dir = [-0.05, 0.1, -1.0];
    let center = [0.0, 0.0, -1.0];
    let (d, near, far) = quadratic(origin, dir, center, 2.0);
    assert!(d > 0.0);
    let ray_t = range(0.001, 1e18);
    let t = value(sphere_root(rank(d), rank(near), rank(far), &ray_t).unwrap());
    assert!(0.001 < t && t < 1e18);
    let p = [origin[0] + t * dir[0], origin[1] + t * dir[1], origin[2] + t * dir[2]];
    let dist = ((p[0] - center[0]).powi(2) + (p[1] - center[1]).powi(2) + (p[2] - center[2]).powi(2))
        .sqrt();
    assert!((dist - 2.0).abs() < 1e-9);
}

#[test]
fn sphere_tangent_ray_hits_once() {
    let (d, near, far) = quadratic([0.0, 1.0, 0.0], [0.0, 0.0, -1.0], [0.0, 0.0, -5.0], 1.0);
    assert_eq!(d, 0.0);
    assert_eq!(sphere_root(rank(d), rank(near), rank(far), &range(0.001, 1e18)), Some(rank(5.0)));
}

#[test]
fn interior_of_the_unit_square() {
    let mut rec = HitRecord::new();
    assert!(is_interior(rank(0.25), rank(0.75), &mut rec));
    assert_eq!(rec.u, rank(0.25));
    assert_eq!(rec.v, rank(0.75));
    assert!(is_interior(rank(0.0), rank(1.0), &mut rec));
    assert_eq!((rec.u, rec.v), (rank(0.0), rank(1.0)));
}

#[test]
fn exterior_of_the_unit_square_leaves_the_record() {
    let mut rec = HitRecord::new();
    rec.u = rank(0.5);
    rec.v = rank(0.5);
    let before = rec;
    assert!(!is_interior(rank(-0.1), rank(0.5), &mut rec));
    assert!(!is_interior(rank(0.5), rank(1.0000001), &mut rec));
    assert!(!is_interior(rank(f64::NAN), rank(0.5), &mut rec));
    assert_eq!(rec, before);
}

#[test]
fn plane_crossing_needs_a_slanted_ray_within_range() {
    let ray_t = range(0.001, 100.0);
    assert!(plane_crossing(rank(0.5), rank(3.0), &ray_t));
    assert!(plane_crossing(rank(-0.5), rank(100.0), &ray_t));
    assert!(plane_crossing(rank(1e-8), rank(0.001), &ray_t));
    assert!(!plane_crossing(rank(9.9e-9), rank(3.0), &ray_t));
    assert!(!plane_crossing(rank(-9.9e-9), rank(3.0), &ray_t));
    assert!(!plane_crossing(rank(0.0), rank(f64::INFINITY), &ray_t));
    assert!(!plane_crossing(rank(0.5), rank(100.5), &ray_t));
    assert!(!plane_crossing(rank(0.5), rank(0.0), &ray_t));
}

#[test]
fn triangle_accepts_a_point_inside() {
    let ray_t = range(0.001, 1e18);
    let turns = [rank(1.0), rank(0.9999), rank(0.99995)];
    assert!(triangle_accepts(rank(0.7), rank(2.0), &turns, &ray_t));
}

#[test]
fn triangle_rejects_each_failing_condition() {
    let ray_t = range(0.001, 10.0);
    let inside = [rank(1.0), rank(1.0), rank(1.0)];
    assert!(!triangle_accepts(rank(0.0001), rank(2.0), &inside, &ray_t));
    assert!(!triangle_accepts(rank(-0.5), rank(2.0), &inside, &ray_t));
    assert!(!triangle_accepts(rank(0.7), rank(0.0), &inside, &ray_t));
    assert!(!triangle_accepts(rank(0.7), rank(-3.0), &inside, &ray_t));
    assert!(!triangle_accepts(rank(0.7), rank(10.5), &inside, &ray_t));
    assert!(!triangle_accepts(rank(0.7), rank(0.0005), &inside, &ray_t));
    assert!(!triangle_accepts(rank(0.7), rank(2.0), &[rank(0.999), rank(1.0), rank(1.0)], &ray_t));
    assert!(!triangle_accepts(rank(0.7), rank(2.0), &[rank(1.0), rank(-1.0), rank(1.0)], &ray_t));
    assert!(!triangle_accepts(rank(0.7), rank(2.0), &[rank(1.0), rank(1.0), rank(0.5)], &ray_t));
    assert!(triangle_accepts(rank(0.7), rank(10.0), &inside, &ray_t));
}

#[test]
fn medium_span_is_cut_to_the_range() {
    assert_eq!(
        medium_span(rank(2.0), rank(5.0), &range(0.001, 1e18)),
        Some((rank(2.0), rank(5.0)))
    );
    assert_eq!(
        medium_span(rank(-3.0), rank(5.0), &range(0.001, 4.0)),
        Some((rank(0.001), rank(4.0)))
    );
    assert_eq!(medium_span(rank(2.0), rank(5.0), &range(5.0, 9.0)), None);
    assert_eq!(medium_span(rank(2.0), rank(5.0), &range(0.0, 2.0)), None);
}

#[test]
fn medium_span_starts_no_earlier_than_the_origin() {
    assert_eq!(
        medium_span(rank(-3.0), rank(5.0), &range(-10.0, 10.0)),
        Some((rank(0.0), rank(5.0)))
    );
    assert_eq!(
        medium_span(rank(-3.0), rank(-1.0), &range(-10.0, 10.0)),
        Some((rank(0.0), rank(-1.0)))
    );
}

#[test]
fn face_normal_of_a_front_hit() {
    let mut rec = HitRecord::new();
    rec.t = rank(3.0);
    let outward = vec3(0.0, 0.0, 1.0);
    rec.set_face_normal(rank(-0.8), outward);
    assert!(rec.front_face);
    assert_eq!(rec.normal, outward);
    assert_eq!(rec.t, rank(3.0));
}

#[test]
fn face_normal_of_a_back_hit_is_turned() {
    let mut rec = HitRecord::new();
    rec.set_face_normal(rank(0.8), vec3(0.0, -0.6, 0.8));
    assert!(!rec.front_face);
    assert_eq!(rec.normal, vec3(0.0, 0.6, -0.8));
    rec.set_face_normal(rank(0.0), vec3(1.0, 0.0, 0.0));
    assert!(!rec.front_face);
    assert_eq!(rec.normal, vec3(-1.0, 0.0, 0.0));
}

#[test]
fn fresh_records_and_rays_are_zero() {
    let rec = HitRecord::new();
    assert_eq!(rec.p, vec3(0.0, 0.0, 0.0));
    assert_eq!(rec.normal, vec3(0.0, 0.0, 0.0));
    assert_eq!((rec.t, rec.u, rec.v), (0, 0, 0));
    assert!(!rec.front_face);
    assert_eq!(rec.mat, Material::Lambertian { tex: 0 });
    let ray = Ray::new();
    assert_eq!(ray, Ray { dir: vec3(0.0, 0.0, 0.0), ori: vec3(0.0, 0.0, 0.0), tm: rank(0.0) });
}

#[test]
fn helper_axis_avoids_the_leaning_axis() {
    assert_eq!(Onb::helper_axis(&vec3(0.95, 0.1, 0.0)), vec3(0.0, 1.0, 0.0));
    assert_eq!(Onb::helper_axis(&vec3(-0.95, 0.1, 0.0)), vec3(0.0, 1.0, 0.0));
    assert_eq!(Onb::helper_axis(&vec3(0.9, 0.3, 0.3)), vec3(1.0, 0.0, 0.0));
    assert_eq!(Onb::helper_axis(&vec3(0.0, 0.0, 1.0)), vec3(1.0, 0.0, 0.0));
}
