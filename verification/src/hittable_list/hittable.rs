//! Hit records and the decisions that the shapes make once the arithmetic of an
//! intersection has been done.

use vstd::prelude::*;
use crate::aabb::{boxed_spec, merge, merge_spec, point_to_aabb, spanned, spanned_spec, Aabb};
use crate::hittable_list::material::Material;
use crate::hittable_list::HitObject;
use crate::rtweekend::interval::Interval;
use crate::rtweekend::scalar::ONE;
use crate::rtweekend::{INF, NEG_INF};
use crate::rtweekend::vec3::{Point3, Vec3};

verus! {

/// Where a ray met a surface: the point, the normal turned against the ray, the
/// ray parameter `t`, the surface coordinates, the side that was hit and the
/// material there.
#[derive(Clone, Copy, Debug, PartialEq, Eq)]
pub struct HitRecord {
    pub p: Point3,
    pub normal: Vec3,
    pub t: i64,
    pub u: i64,
    pub v: i64,
    pub front_face: bool,
    pub mat: Material,
}

impl HitRecord {
    /// A record at the origin with every rank zero and a diffuse material on
    /// texture 0.
    pub open spec fn blank_spec() -> HitRecord {
        HitRecord {
            p: Vec3 { e: [0, 0, 0] },
            normal: Vec3 { e: [0, 0, 0] },
            t: 0,
            u: 0,
            v: 0,
            front_face: false,
            mat: Material::Lambertian { tex: 0 },
        }
    }

    /// A record at the origin with every rank zero and a diffuse material on
    /// texture 0.
    pub fn new() -> (r: HitRecord)
        ensures
            r == Self::blank_spec(),
    {
        let r = HitRecord {
            p: Vec3::new(),
            normal: Vec3::new(),
            t: 0,
            u: 0,
            v: 0,
            front_face: false,
            mat: Material::Lambertian { tex: 0 },
        };
        assert(r.p.e =~= Self::blank_spec().p.e);
        assert(r.normal.e =~= Self::blank_spec().normal.e);
        r
    }

    /// The record once the side that was hit is known: the front was hit when
    /// `facing` is negative, and the normal points against the ray.
    pub open spec fn faced(self, facing: i64, outward_normal: Vec3) -> HitRecord {
        HitRecord {
            front_face: facing < 0,
            normal: if facing < 0 {
                outward_normal
            } else {
                outward_normal.negate_spec()
            },
            ..self
        }
    }

    /// Records which side was hit. `facing` is the rank of the dot product of
    /// the ray's direction with `outward_normal`: the front was hit when it is
    /// negative, and the stored normal always points against the ray.
    pub fn set_face_normal(&mut self, facing: i64, outward_normal: Vec3)
        ensures
            *final(self) == old(self).faced(facing, outward_normal),
    {
        self.front_face = facing < 0;
        self.normal = if self.front_face {
            outward_normal
        } else {
            outward_normal.negate()
        };
    }
}

/// What is measured of a ray against a shape, for the shape to accept or
/// reject the ray.
#[derive(Clone, Copy, Debug, PartialEq, Eq)]
pub enum Probe {
    /// The discriminant of the quadratic of the ray and a sphere, and its two
    /// roots.
    Sphere { discriminant: i64, near: i64, far: i64 },
    /// The share of the ray's direction along the normal of a quad, the ray
    /// parameter at which the ray crosses its plane, and the planar
    /// coordinates of the crossing.
    Quad { denom: i64, t: i64, alpha: i64, beta: i64 },
    /// How far the ray's origin stands in front of a triangle, the ray
    /// parameter at which the ray crosses its plane, and how well the normals
    /// of the three triangles that the crossing spans with the edges agree.
    Triangle { facing: i64, t: i64, turns: [i64; 3] },
}

/// What is measured of a surface at the place where a ray meets it: the
/// place, the normal that points out of the shape, the surface coordinates,
/// and the dot product of the ray's direction with that normal.
#[derive(Clone, Copy, Debug, PartialEq, Eq)]
pub struct Surface {
    pub p: Point3,
    pub outward_normal: Vec3,
    pub u: i64,
    pub v: i64,
    pub facing: i64,
}

/// What is measured of a ray inside a medium: how far it flies before it is
/// scattered, how far it has to the far side of the boundary, and the ray
/// parameter and the place at which it would be scattered.
#[derive(Clone, Copy, Debug, PartialEq, Eq)]
pub struct Flight {
    pub hit_distance: i64,
    pub distance_inside_boundary: i64,
    pub t: i64,
    pub p: Point3,
}

/// The record of a hit at ray parameter `t` on a surface of material `mat`.
pub open spec fn assemble_spec(mat: Material, t: i64, surface: Surface) -> HitRecord {
    (HitRecord {
        p: surface.p,
        normal: surface.outward_normal,
        t,
        u: surface.u,
        v: surface.v,
        front_face: false,
        mat,
    }).faced(surface.facing, surface.outward_normal)
}

/// The record of a scattering inside a medium with the phase function `mat`:
/// it has no surface, so the normal is the first axis and the front is hit.
pub open spec fn scattered_spec(mat: Material, flight: Flight) -> HitRecord {
    HitRecord {
        p: flight.p,
        normal: Vec3 { e: [ONE, 0, 0] },
        t: flight.t,
        u: 0,
        v: 0,
        front_face: true,
        mat,
    }
}

/// Makes the record of a hit from what was measured of the surface.
pub fn assemble(mat: Material, t: i64, surface: &Surface) -> (rec: HitRecord)
    ensures
        rec == assemble_spec(mat, t, *surface),
{
    let mut rec = HitRecord {
        p: surface.p,
        normal: surface.outward_normal,
        t,
        u: surface.u,
        v: surface.v,
        front_face: false,
        mat,
    };
    rec.set_face_normal(surface.facing, surface.outward_normal);
    rec
}

/// Makes the record of a scattering inside a medium.
pub fn scattered(mat: Material, flight: &Flight) -> (rec: HitRecord)
    ensures
        rec == scattered_spec(mat, *flight),
{
    let rec = HitRecord {
        p: flight.p,
        normal: Vec3 { e: [ONE, 0, 0] },
        t: flight.t,
        u: 0,
        v: 0,
        front_face: true,
        mat,
    };
    assert(rec.normal.e =~= scattered_spec(mat, *flight).normal.e);
    rec
}

/// A list with no children and the empty box.
pub fn new_hittable_list() -> (list: HitObject)
    ensures
        list matches HitObject::HittableList { objects, bbox } && objects@.len() == 0 && bbox
            == Aabb::empty_spec(),
{
    HitObject::HittableList { objects: Vec::new(), bbox: Aabb::empty() }
}

/// Both planar coordinates lie in the unit interval.
pub open spec fn is_interior_spec(a: i64, b: i64) -> bool {
    0 <= a <= ONE && 0 <= b <= ONE
}

/// Tests the planar coordinates of a point against the unit square and, when
/// the point is inside, stores them as the surface coordinates of `rec`.
pub fn is_interior(a: i64, b: i64, rec: &mut HitRecord) -> (inside: bool)
    ensures
        inside == is_interior_spec(a, b),
        inside ==> *final(rec) == (HitRecord { u: a, v: b, ..*old(rec) }),
        !inside ==> *final(rec) == *old(rec),
{
    let unit_interval = Interval { min: 0, max: ONE };
    if !unit_interval.contains(a) || !unit_interval.contains(b) {
        return false;
    }
    rec.u = a;
    rec.v = b;
    true
}

/// The root of the sphere's quadratic that a ray accepts: none when the
/// discriminant is negative, else the near root if it lies strictly inside
/// `ray_t`, else the far root if that does, else none.
pub open spec fn sphere_root_spec(discriminant: i64, near: i64, far: i64, ray_t: Interval)
    -> Option<i64> {
    if discriminant < 0 {
        None
    } else if ray_t.surrounds_spec(near) {
        Some(near)
    } else if ray_t.surrounds_spec(far) {
        Some(far)
    } else {
        None
    }
}

/// Chooses the ray parameter at which a ray hits a sphere, given the
/// discriminant of the quadratic and its two roots. The roots are read only
/// when the discriminant is not negative.
pub fn sphere_root(discriminant: i64, near: i64, far: i64, ray_t: &Interval) -> (root: Option<
    i64,
>)
    ensures
        root == sphere_root_spec(discriminant, near, far, *ray_t),
{
    if discriminant < 0 {
        return None;
    }
    let mut root = near;
    if !ray_t.surrounds(root) {
        root = far;
        if !ray_t.surrounds(root) {
            return None;
        }
    }
    Some(root)
}

/// A negative discriminant gives no root, and a root that is given lies
/// strictly inside the range and is one of the two roots.
pub proof fn lemma_sphere_root_in_range(discriminant: i64, near: i64, far: i64, ray_t: Interval)
    ensures
        discriminant < 0 ==> sphere_root_spec(discriminant, near, far, ray_t) is None,
        sphere_root_spec(discriminant, near, far, ray_t) matches Some(t) ==> ray_t.min < t
            < ray_t.max && (t == near || t == far) && discriminant >= 0,
{
}

/// Rank of 0.001: a ray looks for surfaces from this ray parameter on, so that
/// it does not meet again the surface that it leaves.
pub const NEAR: i64 = 0x3F50_624D_D2F1_A9FC;

/// Rank of 1e-8: a ray whose direction has a smaller share along a plane's
/// normal runs parallel to the plane.
pub const PARALLEL: i64 = 0x3E45_798E_E230_8C3A;

/// Rank of 0.0001: a viewpoint must stand further than this in front of a
/// triangle, measured along its normal on a unit vector, to see it.
pub const GRAZING: i64 = 0x3F1A_36E2_EB1C_432D;

/// Rank of 0.999: two unit normals with a larger dot product count as
/// parallel.
pub const ALIGNED: i64 = 0x3FEF_F7CE_D916_872B;

/// The ray crosses the plane within `ray_t`: it does not run parallel to the
/// plane, and the crossing lies in the closed range.
pub open spec fn plane_crossing_spec(denom: i64, t: i64, ray_t: Interval) -> bool {
    !(-PARALLEL < denom < PARALLEL) && ray_t.contains_spec(t)
}

/// Decides whether a ray crosses a plane within `ray_t`. `denom` is the rank
/// of the dot product of the plane's normal with the ray's direction and `t`
/// the rank of the ray parameter of the crossing.
pub fn plane_crossing(denom: i64, t: i64, ray_t: &Interval) -> (crosses: bool)
    ensures
        crosses == plane_crossing_spec(denom, t, *ray_t),
{
    if -PARALLEL < denom && denom < PARALLEL {
        return false;
    }
    ray_t.contains(t)
}

/// A triangle accepts a crossing of its plane when the viewpoint stands in
/// front of it, the crossing lies ahead of the ray and within `ray_t`, and the
/// three normals of the triangles that the crossing spans with each edge are
/// parallel to one another.
pub open spec fn triangle_accepts_spec(facing: i64, t: i64, turns: [i64; 3], ray_t: Interval)
    -> bool {
    &&& facing > GRAZING
    &&& t > 0
    &&& ray_t.contains_spec(t)
    &&& turns[0] > ALIGNED
    &&& turns[1] > ALIGNED
    &&& turns[2] > ALIGNED
}

/// Decides whether a ray hits a triangle. `facing` is the rank of the dot
/// product of the triangle's normal with the unit vector from its first corner
/// to the ray's origin, `t` the rank of the ray parameter at which the ray
/// crosses the triangle's plane, and `turns` the ranks of the dot products of
/// the three sub-triangle normals taken in pairs.
pub fn triangle_accepts(facing: i64, t: i64, turns: &[i64; 3], ray_t: &Interval) -> (hit: bool)
    ensures
        hit == triangle_accepts_spec(facing, t, *turns, *ray_t),
{
    if facing <= GRAZING {
        return false;
    }
    if t <= 0 {
        return false;
    }
    if !ray_t.contains(t) {
        return false;
    }
    turns[0] > ALIGNED && turns[1] > ALIGNED && turns[2] > ALIGNED
}

/// The stretch of a ray inside a medium: from where it enters the boundary to
/// where it leaves, cut to `ray_t` and to the part ahead of the ray's origin.
/// There is none when the cut leaves nothing.
pub open spec fn medium_span_spec(enter: i64, exit: i64, ray_t: Interval) -> Option<(i64, i64)> {
    let from = if enter < ray_t.min {
        ray_t.min
    } else {
        enter
    };
    let to = if exit > ray_t.max {
        ray_t.max
    } else {
        exit
    };
    if from >= to {
        None
    } else if from < 0 {
        Some((0i64, to))
    } else {
        Some((from, to))
    }
}

/// Cuts the stretch between the two crossings of a medium's boundary to the
/// range that the ray was asked about.
pub fn medium_span(enter: i64, exit: i64, ray_t: &Interval) -> (span: Option<(i64, i64)>)
    ensures
        span == medium_span_spec(enter, exit, *ray_t),
{
    let mut from = enter;
    let mut to = exit;
    if from < ray_t.min {
        from = ray_t.min;
    }
    if to > ray_t.max {
        to = ray_t.max;
    }
    if from >= to {
        return None;
    }
    if from < 0 {
        from = 0;
    }
    Some((from, to))
}

/// A stretch that is returned starts no earlier than the ray's origin and ends
/// no later than the range or the exit; when the range starts at or after the
/// origin, the stretch lies within the range and is not empty.
pub proof fn lemma_medium_span_inside(enter: i64, exit: i64, ray_t: Interval)
    ensures
        medium_span_spec(enter, exit, ray_t) matches Some(span) ==> span.0 >= 0 && span.1
            <= ray_t.max && span.1 <= exit && (ray_t.min >= 0 ==> ray_t.min <= span.0 < span.1),
{
}

/// The plane of a quad: the vector that turns a point of the plane into planar
/// coordinates, the unit normal, the offset of the plane along the normal, and
/// the area of the quad.
#[derive(Clone, Copy, Debug, PartialEq, Eq)]
pub struct QuadFrame {
    pub w: Vec3,
    pub normal: Vec3,
    pub d: i64,
    pub area: i64,
}

/// The arithmetic that the building of objects leaves to its caller. Each
/// function measures; none decides.
pub struct Tools<M, A, L, R, D, H, G, T, P> {
    /// The extents of a box and, for each axis, the interval that the axis
    /// takes if it is too thin.
    pub measure: M,
    /// A point moved along a vector.
    pub advance: A,
    /// The two opposite corners of the box around a ball: the centre less the
    /// radius and the centre plus the radius on every axis.
    pub ball: L,
    /// The plane of the quad on a corner and two edges.
    pub frame: R,
    /// The distance from the first rank up to the second.
    pub span: D,
    /// An interval moved by an offset.
    pub shift: H,
    /// The sine and the cosine of an angle in degrees.
    pub trig: G,
    /// The first and the third coordinate of a point turned about the second
    /// axis, given the two coordinates and the sine and cosine of the angle.
    pub turn: T,
    /// The negated inverse of a density.
    pub free_path: P,
}

/// What a set of tools measures, as functions of what is measured.
pub struct ToolModel {
    pub measure: spec_fn(Aabb) -> ([i64; 3], [Interval; 3]),
    pub advance: spec_fn(Point3, Vec3) -> Point3,
    pub ball: spec_fn(Point3, i64) -> (Point3, Point3),
    pub frame: spec_fn(Point3, Vec3, Vec3) -> QuadFrame,
    pub span: spec_fn(i64, i64) -> i64,
    pub shift: spec_fn(Interval, i64) -> Interval,
    pub trig: spec_fn(i64) -> (i64, i64),
    pub turn: spec_fn(i64, i64, i64, i64) -> (i64, i64),
    pub free_path: spec_fn(i64) -> i64,
}

/// The tools can be asked anything.
pub open spec fn tools_ready<M, A, L, R, D, H, G, T, P>(tools: &Tools<M, A, L, R, D, H, G, T, P>) -> bool
    where
    M: Fn(&Aabb) -> ([i64; 3], [Interval; 3]),
    A: Fn(&Point3, &Vec3) -> Point3,
    L: Fn(&Point3, i64) -> (Point3, Point3),
    R: Fn(&Point3, &Vec3, &Vec3) -> QuadFrame,
    D: Fn(i64, i64) -> i64,
    H: Fn(&Interval, i64) -> Interval,
    G: Fn(i64) -> (i64, i64),
    T: Fn(i64, i64, i64, i64) -> (i64, i64),
    P: Fn(i64) -> i64,
 {
    &&& forall|bbox: Aabb| #[trigger] tools.measure.requires((&bbox,))
    &&& forall|p: Point3, v: Vec3| #[trigger] tools.advance.requires((&p, &v))
    &&& forall|center: Point3, radius: i64| #[trigger] tools.ball.requires((&center, radius))
    &&& forall|q: Point3, u: Vec3, v: Vec3| #[trigger] tools.frame.requires((&q, &u, &v))
    &&& forall|lo: i64, hi: i64| #[trigger] tools.span.requires((lo, hi))
    &&& forall|range: Interval, offset: i64| #[trigger] tools.shift.requires((&range, offset))
    &&& forall|angle: i64| #[trigger] tools.trig.requires((angle,))
    &&& forall|x: i64, z: i64, sin: i64, cos: i64| #[trigger]
        tools.turn.requires((x, z, sin, cos))
    &&& forall|density: i64| #[trigger] tools.free_path.requires((density,))
}

/// Every answer that the tools can give is the answer of `model`.
pub open spec fn builds<M, A, L, R, D, H, G, T, P>(
    tools: &Tools<M, A, L, R, D, H, G, T, P>,
    model: ToolModel,
) -> bool where
    M: Fn(&Aabb) -> ([i64; 3], [Interval; 3]),
    A: Fn(&Point3, &Vec3) -> Point3,
    L: Fn(&Point3, i64) -> (Point3, Point3),
    R: Fn(&Point3, &Vec3, &Vec3) -> QuadFrame,
    D: Fn(i64, i64) -> i64,
    H: Fn(&Interval, i64) -> Interval,
    G: Fn(i64) -> (i64, i64),
    T: Fn(i64, i64, i64, i64) -> (i64, i64),
    P: Fn(i64) -> i64,
 {
    &&& forall|bbox: Aabb, measured: ([i64; 3], [Interval; 3])| #[trigger]
        tools.measure.ensures((&bbox,), measured) ==> measured == (model.measure)(bbox)
    &&& forall|p: Point3, v: Vec3, moved: Point3| #[trigger]
        tools.advance.ensures((&p, &v), moved) ==> moved == (model.advance)(p, v)
    &&& forall|center: Point3, radius: i64, corners: (Point3, Point3)| #[trigger]
        tools.ball.ensures((&center, radius), corners) ==> corners == (model.ball)(center, radius)
    &&& forall|q: Point3, u: Vec3, v: Vec3, plane: QuadFrame| #[trigger]
        tools.frame.ensures((&q, &u, &v), plane) ==> plane == (model.frame)(q, u, v)
    &&& forall|lo: i64, hi: i64, extent: i64| #[trigger]
        tools.span.ensures((lo, hi), extent) ==> extent == (model.span)(lo, hi)
    &&& forall|range: Interval, offset: i64, moved: Interval| #[trigger]
        tools.shift.ensures((&range, offset), moved) ==> moved == (model.shift)(range, offset)
    &&& forall|angle: i64, both: (i64, i64)| #[trigger]
        tools.trig.ensures((angle,), both) ==> both == (model.trig)(angle)
    &&& forall|x: i64, z: i64, sin: i64, cos: i64, turned: (i64, i64)| #[trigger]
        tools.turn.ensures((x, z, sin, cos), turned) ==> turned == (model.turn)(x, z, sin, cos)
    &&& forall|density: i64, path: i64| #[trigger]
        tools.free_path.ensures((density,), path) ==> path == (model.free_path)(density)
}

/// The padded box between two corners.
pub open spec fn box_of(a: Point3, b: Point3, model: ToolModel) -> Aabb {
    boxed_spec(a, b, (model.measure)(spanned_spec(a, b)))
}

/// The sphere that `build_sphere` builds: its box covers the ball where the
/// centre starts and, if the sphere moves, also the ball where the centre
/// ends.
pub open spec fn built_sphere_spec(
    center_st: Point3,
    center_vec: Vec3,
    radius: i64,
    mat: Material,
    is_moving: bool,
    model: ToolModel,
) -> HitObject {
    let start = (model.ball)(center_st, radius);
    let end = (model.ball)((model.advance)(center_st, center_vec), radius);
    HitObject::Sphere {
        center_st,
        radius,
        mat,
        is_moving,
        center_vec,
        bbox: if is_moving {
            merge_spec(box_of(start.0, start.1, model), box_of(end.0, end.1, model))
        } else {
            box_of(start.0, start.1, model)
        },
    }
}

/// The quad that `build_quad` builds: its box covers both diagonals.
pub open spec fn built_quad_spec(q: Point3, u: Vec3, v: Vec3, mat: Material, model: ToolModel)
    -> HitObject {
    let plane = (model.frame)(q, u, v);
    let along_u = (model.advance)(q, u);
    let along_v = (model.advance)(q, v);
    let across = (model.advance)(along_u, v);
    HitObject::Quad {
        q,
        u,
        v,
        w: plane.w,
        mat,
        bbox: merge_spec(box_of(q, across, model), box_of(along_u, along_v, model)),
        normal: plane.normal,
        d: plane.d,
        area: plane.area,
    }
}

/// The six sides of the box between the corners `a` and `b`: front, right,
/// back, left, top and bottom.
pub open spec fn box_sides_spec(a: Point3, b: Point3, mat: Material, model: ToolModel) -> Seq<
    HitObject,
> {
    let s = spanned_spec(a, b);
    let dx = Vec3 { e: [(model.span)(s.b[0].min, s.b[0].max), 0, 0] };
    let dy = Vec3 { e: [0, (model.span)(s.b[1].min, s.b[1].max), 0] };
    let dz = Vec3 { e: [0, 0, (model.span)(s.b[2].min, s.b[2].max)] };
    seq![
        built_quad_spec(Vec3 { e: [s.b[0].min, s.b[1].min, s.b[2].max] }, dx, dy, mat, model),
        built_quad_spec(
            Vec3 { e: [s.b[0].max, s.b[1].min, s.b[2].max] },
            dz.negate_spec(),
            dy,
            mat,
            model,
        ),
        built_quad_spec(
            Vec3 { e: [s.b[0].max, s.b[1].min, s.b[2].min] },
            dx.negate_spec(),
            dy,
            mat,
            model,
        ),
        built_quad_spec(Vec3 { e: [s.b[0].min, s.b[1].min, s.b[2].min] }, dz, dy, mat, model),
        built_quad_spec(
            Vec3 { e: [s.b[0].min, s.b[1].max, s.b[2].max] },
            dx,
            dz.negate_spec(),
            mat,
            model,
        ),
        built_quad_spec(Vec3 { e: [s.b[0].min, s.b[1].min, s.b[2].min] }, dx, dz, mat, model),
    ]
}

/// The union of the empty box with the boxes of the first `n` of `objects`.
pub open spec fn union_spec(objects: Seq<HitObject>, n: nat) -> Aabb
    decreases n,
{
    if n == 0 || n > objects.len() {
        Aabb::empty_spec()
    } else {
        merge_spec(union_spec(objects, (n - 1) as nat), objects[n - 1].bounds())
    }
}

/// The moved object that `build_translate` builds: its box is the box of the
/// object, moved on every axis.
pub open spec fn built_translate_spec(object: HitObject, offset: Vec3, model: ToolModel)
    -> HitObject {
    let pre = object.bounds();
    HitObject::Translate {
        object: Box::new(object),
        offset,
        bbox: Aabb {
            b: [
                (model.shift)(pre.b[0], offset.e[0]),
                (model.shift)(pre.b[1], offset.e[1]),
                (model.shift)(pre.b[2], offset.e[2]),
            ],
        },
    }
}

/// Corner number `n` of a box, turned about the second axis. The corners are
/// numbered by which of the two bounds they take on each axis.
pub open spec fn turned_corner_spec(bbox: Aabb, n: int, sin: i64, cos: i64, model: ToolModel)
    -> Vec3 {
    let x = if n / 4 == 1 {
        bbox.b[0].max
    } else {
        bbox.b[0].min
    };
    let y = if (n / 2) % 2 == 1 {
        bbox.b[1].max
    } else {
        bbox.b[1].min
    };
    let z = if n % 2 == 1 {
        bbox.b[2].max
    } else {
        bbox.b[2].min
    };
    let turned = (model.turn)(x, z, sin, cos);
    Vec3 { e: [turned.0, y, turned.1] }
}

/// On every axis the least coordinate of the first `n` turned corners, and
/// `INF` if there is none.
pub open spec fn low_corner_spec(bbox: Aabb, n: nat, sin: i64, cos: i64, model: ToolModel) -> Vec3
    decreases n,
{
    if n == 0 {
        Vec3 { e: [INF, INF, INF] }
    } else {
        let before = low_corner_spec(bbox, (n - 1) as nat, sin, cos, model);
        let corner = turned_corner_spec(bbox, n - 1, sin, cos, model);
        Vec3 {
            e: [
                crate::aabb::lower(before.e[0], corner.e[0]),
                crate::aabb::lower(before.e[1], corner.e[1]),
                crate::aabb::lower(before.e[2], corner.e[2]),
            ],
        }
    }
}

/// On every axis the greatest coordinate of the first `n` turned corners, and
/// `NEG_INF` if there is none.
pub open spec fn high_corner_spec(bbox: Aabb, n: nat, sin: i64, cos: i64, model: ToolModel) -> Vec3
    decreases n,
{
    if n == 0 {
        Vec3 { e: [NEG_INF, NEG_INF, NEG_INF] }
    } else {
        let before = high_corner_spec(bbox, (n - 1) as nat, sin, cos, model);
        let corner = turned_corner_spec(bbox, n - 1, sin, cos, model);
        Vec3 {
            e: [
                crate::aabb::higher(before.e[0], corner.e[0]),
                crate::aabb::higher(before.e[1], corner.e[1]),
                crate::aabb::higher(before.e[2], corner.e[2]),
            ],
        }
    }
}

/// The turned object that `build_rotate` builds: its box is the padded box
/// around the eight turned corners of the object's box.
pub open spec fn built_rotate_spec(object: HitObject, angle: i64, model: ToolModel) -> HitObject {
    let both = (model.trig)(angle);
    let pre = object.bounds();
    HitObject::Rotate {
        object: Box::new(object),
        sin_theta: both.0,
        cos_theta: both.1,
        bbox: box_of(
            low_corner_spec(pre, 8, both.0, both.1, model),
            high_corner_spec(pre, 8, both.0, both.1, model),
            model,
        ),
    }
}

/// Builds a sphere of the given radius around `center_st`. A moving sphere
/// drifts by `center_vec` while the shutter is open.
pub fn build_sphere<M, A, L, R, D, H, G, T, P>(
    center_st: Point3,
    center_vec: Vec3,
    radius: i64,
    mat: Material,
    is_moving: bool,
    tools: &Tools<M, A, L, R, D, H, G, T, P>,
) -> (sphere: HitObject) where
    M: Fn(&Aabb) -> ([i64; 3], [Interval; 3]),
    A: Fn(&Point3, &Vec3) -> Point3,
    L: Fn(&Point3, i64) -> (Point3, Point3),
    R: Fn(&Point3, &Vec3, &Vec3) -> QuadFrame,
    D: Fn(i64, i64) -> i64,
    H: Fn(&Interval, i64) -> Interval,
    G: Fn(i64) -> (i64, i64),
    T: Fn(i64, i64, i64, i64) -> (i64, i64),
    P: Fn(i64) -> i64,

    requires
        tools_ready(tools),
    ensures
        forall|model: ToolModel| #[trigger]
            builds(tools, model) ==> sphere == built_sphere_spec(
                center_st,
                center_vec,
                radius,
                mat,
                is_moving,
                model,
            ),
{
    let start = (tools.ball)(&center_st, radius);
    let still = point_to_aabb(&start.0, &start.1, &tools.measure);
    let bbox = if is_moving {
        let center_end = (tools.advance)(&center_st, &center_vec);
        let end = (tools.ball)(&center_end, radius);
        merge(&still, &point_to_aabb(&end.0, &end.1, &tools.measure))
    } else {
        still
    };
    HitObject::Sphere { center_st, radius, mat, is_moving, center_vec, bbox }
}

/// Builds the quad with the corner `q` and the edges `u` and `v`.
pub fn build_quad<M, A, L, R, D, H, G, T, P>(
    q: Point3,
    u: Vec3,
    v: Vec3,
    mat: Material,
    tools: &Tools<M, A, L, R, D, H, G, T, P>,
) -> (quad: HitObject) where
    M: Fn(&Aabb) -> ([i64; 3], [Interval; 3]),
    A: Fn(&Point3, &Vec3) -> Point3,
    L: Fn(&Point3, i64) -> (Point3, Point3),
    R: Fn(&Point3, &Vec3, &Vec3) -> QuadFrame,
    D: Fn(i64, i64) -> i64,
    H: Fn(&Interval, i64) -> Interval,
    G: Fn(i64) -> (i64, i64),
    T: Fn(i64, i64, i64, i64) -> (i64, i64),
    P: Fn(i64) -> i64,

    requires
        tools_ready(tools),
    ensures
        forall|model: ToolModel| #[trigger]
            builds(tools, model) ==> quad == built_quad_spec(q, u, v, mat, model),
{
    let plane = (tools.frame)(&q, &u, &v);
    let along_u = (tools.advance)(&q, &u);
    let along_v = (tools.advance)(&q, &v);
    let across = (tools.advance)(&along_u, &v);
    let bbox = merge(
        &point_to_aabb(&q, &across, &tools.measure),
        &point_to_aabb(&along_u, &along_v, &tools.measure),
    );
    HitObject::Quad {
        q,
        u,
        v,
        w: plane.w,
        mat,
        bbox,
        normal: plane.normal,
        d: plane.d,
        area: plane.area,
    }
}

/// Builds the box between the corners `a` and `b`, given in any order, as a
/// list of its six sides.
pub fn build_box<M, A, L, R, D, H, G, T, P>(
    a: &Point3,
    b: &Point3,
    mat: &Material,
    tools: &Tools<M, A, L, R, D, H, G, T, P>,
) -> (sides: HitObject) where
    M: Fn(&Aabb) -> ([i64; 3], [Interval; 3]),
    A: Fn(&Point3, &Vec3) -> Point3,
    L: Fn(&Point3, i64) -> (Point3, Point3),
    R: Fn(&Point3, &Vec3, &Vec3) -> QuadFrame,
    D: Fn(i64, i64) -> i64,
    H: Fn(&Interval, i64) -> Interval,
    G: Fn(i64) -> (i64, i64),
    T: Fn(i64, i64, i64, i64) -> (i64, i64),
    P: Fn(i64) -> i64,

    requires
        tools_ready(tools),
    ensures
        sides matches HitObject::HittableList { objects, bbox } && objects@.len() == 6 && bbox
            == union_spec(objects@, 6) && forall|model: ToolModel| #[trigger]
            builds(tools, model) ==> objects@ == box_sides_spec(*a, *b, *mat, model),
{
    let mut sides = new_hittable_list();
    let s = spanned(a, b);
    let (min, max) = (
        Vec3 { e: [s.b[0].min, s.b[1].min, s.b[2].min] },
        Vec3 { e: [s.b[0].max, s.b[1].max, s.b[2].max] },
    );
    let dx = Vec3 { e: [(tools.span)(min.e[0], max.e[0]), 0, 0] };
    let dy = Vec3 { e: [0, (tools.span)(min.e[1], max.e[1]), 0] };
    let dz = Vec3 { e: [0, 0, (tools.span)(min.e[2], max.e[2])] };
    let front = build_quad(Vec3 { e: [min.e[0], min.e[1], max.e[2]] }, dx, dy, *mat, tools);
    let right = build_quad(
        Vec3 { e: [max.e[0], min.e[1], max.e[2]] },
        dz.negate(),
        dy,
        *mat,
        tools,
    );
    let back = build_quad(
        Vec3 { e: [max.e[0], min.e[1], min.e[2]] },
        dx.negate(),
        dy,
        *mat,
        tools,
    );
    let left = build_quad(Vec3 { e: [min.e[0], min.e[1], min.e[2]] }, dz, dy, *mat, tools);
    let top = build_quad(
        Vec3 { e: [min.e[0], max.e[1], max.e[2]] },
        dx,
        dz.negate(),
        *mat,
        tools,
    );
    let bottom = build_quad(Vec3 { e: [min.e[0], min.e[1], min.e[2]] }, dx, dz, *mat, tools);
    let ghost listed = seq![front, right, back, left, top, bottom];
    sides.add(front);
    sides.add(right);
    sides.add(back);
    sides.add(left);
    sides.add(top);
    sides.add(bottom);
    proof {
        reveal_with_fuel(union_spec, 7);
        assert(sides->HittableList_objects@ =~= listed);
        assert forall|model: ToolModel| #[trigger] builds(tools, model) implies listed
            == box_sides_spec(*a, *b, *mat, model) by {
            let spec_s = spanned_spec(*a, *b);
            let spec_dx = Vec3 { e: [(model.span)(spec_s.b[0].min, spec_s.b[0].max), 0, 0] };
            let spec_dy = Vec3 { e: [0, (model.span)(spec_s.b[1].min, spec_s.b[1].max), 0] };
            let spec_dz = Vec3 { e: [0, 0, (model.span)(spec_s.b[2].min, spec_s.b[2].max)] };
            assert(dx.e =~= spec_dx.e);
            assert(dy.e =~= spec_dy.e);
            assert(dz.e =~= spec_dz.e);
            assert(Vec3 { e: [min.e[0], min.e[1], max.e[2]] }.e =~= Vec3 {
                e: [spec_s.b[0].min, spec_s.b[1].min, spec_s.b[2].max],
            }.e);
            assert(Vec3 { e: [max.e[0], min.e[1], max.e[2]] }.e =~= Vec3 {
                e: [spec_s.b[0].max, spec_s.b[1].min, spec_s.b[2].max],
            }.e);
            assert(Vec3 { e: [max.e[0], min.e[1], min.e[2]] }.e =~= Vec3 {
                e: [spec_s.b[0].max, spec_s.b[1].min, spec_s.b[2].min],
            }.e);
            assert(Vec3 { e: [min.e[0], min.e[1], min.e[2]] }.e =~= Vec3 {
                e: [spec_s.b[0].min, spec_s.b[1].min, spec_s.b[2].min],
            }.e);
            assert(Vec3 { e: [min.e[0], max.e[1], max.e[2]] }.e =~= Vec3 {
                e: [spec_s.b[0].min, spec_s.b[1].max, spec_s.b[2].max],
            }.e);
            assert(listed =~= box_sides_spec(*a, *b, *mat, model));
        }
    }
    sides
}

/// Moves an object by `offset`.
pub fn build_translate<M, A, L, R, D, H, G, T, P>(
    object: HitObject,
    offset: Vec3,
    tools: &Tools<M, A, L, R, D, H, G, T, P>,
) -> (moved: HitObject) where
    M: Fn(&Aabb) -> ([i64; 3], [Interval; 3]),
    A: Fn(&Point3, &Vec3) -> Point3,
    L: Fn(&Point3, i64) -> (Point3, Point3),
    R: Fn(&Point3, &Vec3, &Vec3) -> QuadFrame,
    D: Fn(i64, i64) -> i64,
    H: Fn(&Interval, i64) -> Interval,
    G: Fn(i64) -> (i64, i64),
    T: Fn(i64, i64, i64, i64) -> (i64, i64),
    P: Fn(i64) -> i64,

    requires
        tools_ready(tools),
    ensures
        forall|model: ToolModel| #[trigger]
            builds(tools, model) ==> moved == built_translate_spec(object, offset, model),
{
    let pre = object.bounding_box();
    let bbox = Aabb {
        b: [
            (tools.shift)(&pre.b[0], offset.e[0]),
            (tools.shift)(&pre.b[1], offset.e[1]),
            (tools.shift)(&pre.b[2], offset.e[2]),
        ],
    };
    proof {
        assert forall|model: ToolModel| #[trigger] builds(tools, model) implies bbox
            == built_translate_spec(object, offset, model)->Translate_bbox by {
            assert(bbox.b =~= built_translate_spec(object, offset, model)->Translate_bbox.b);
        }
    }
    HitObject::Translate { object: Box::new(object), offset, bbox }
}

/// Turns an object about the second axis by `angle` degrees.
pub fn build_rotate<M, A, L, R, D, H, G, T, P>(
    object: HitObject,
    angle: i64,
    tools: &Tools<M, A, L, R, D, H, G, T, P>,
) -> (turned: HitObject) where
    M: Fn(&Aabb) -> ([i64; 3], [Interval; 3]),
    A: Fn(&Point3, &Vec3) -> Point3,
    L: Fn(&Point3, i64) -> (Point3, Point3),
    R: Fn(&Point3, &Vec3, &Vec3) -> QuadFrame,
    D: Fn(i64, i64) -> i64,
    H: Fn(&Interval, i64) -> Interval,
    G: Fn(i64) -> (i64, i64),
    T: Fn(i64, i64, i64, i64) -> (i64, i64),
    P: Fn(i64) -> i64,

    requires
        tools_ready(tools),
    ensures
        forall|model: ToolModel| #[trigger]
            builds(tools, model) ==> turned == built_rotate_spec(object, angle, model),
{
    let both = (tools.trig)(angle);
    let (sin_theta, cos_theta) = (both.0, both.1);
    let bbox = object.bounding_box();
    let mut min = Vec3 { e: [INF, INF, INF] };
    let mut max = Vec3 { e: [NEG_INF, NEG_INF, NEG_INF] };
    let mut n: u8 = 0;
    proof {
        assert forall|model: ToolModel| #[trigger] builds(tools, model) implies min
            == low_corner_spec(bbox, 0, sin_theta, cos_theta, model) && max == high_corner_spec(
            bbox,
            0,
            sin_theta,
            cos_theta,
            model,
        ) by {
            assert(min.e =~= low_corner_spec(bbox, 0, sin_theta, cos_theta, model).e);
            assert(max.e =~= high_corner_spec(bbox, 0, sin_theta, cos_theta, model).e);
        }
    }
    while n < 8
        invariant
            n <= 8,
            tools_ready(tools),
            forall|model: ToolModel| #[trigger]
                builds(tools, model) ==> min == low_corner_spec(
                    bbox,
                    n as nat,
                    sin_theta,
                    cos_theta,
                    model,
                ) && max == high_corner_spec(bbox, n as nat, sin_theta, cos_theta, model),
        decreases 8 - n,
    {
        let x = if n / 4 == 1 {
            bbox.b[0].max
        } else {
            bbox.b[0].min
        };
        let y = if (n / 2) % 2 == 1 {
            bbox.b[1].max
        } else {
            bbox.b[1].min
        };
        let z = if n % 2 == 1 {
            bbox.b[2].max
        } else {
            bbox.b[2].min
        };
        let turned = (tools.turn)(x, z, sin_theta, cos_theta);
        let ghost before_min = min;
        let ghost before_max = max;
        min = Vec3 {
            e: [least(min.e[0], turned.0), least(min.e[1], y), least(min.e[2], turned.1)],
        };
        max = Vec3 {
            e: [most(max.e[0], turned.0), most(max.e[1], y), most(max.e[2], turned.1)],
        };
        proof {
            assert forall|model: ToolModel| #[trigger] builds(tools, model) implies min
                == low_corner_spec(bbox, (n + 1) as nat, sin_theta, cos_theta, model) && max
                == high_corner_spec(bbox, (n + 1) as nat, sin_theta, cos_theta, model) by {
                let corner = turned_corner_spec(bbox, n as int, sin_theta, cos_theta, model);
                assert(corner.e[0] == turned.0 && corner.e[1] == y && corner.e[2] == turned.1);
                assert(min.e =~= low_corner_spec(
                    bbox,
                    (n + 1) as nat,
                    sin_theta,
                    cos_theta,
                    model,
                ).e);
                assert(max.e =~= high_corner_spec(
                    bbox,
                    (n + 1) as nat,
                    sin_theta,
                    cos_theta,
                    model,
                ).e);
            }
        }
        n += 1;
    }
    let around = point_to_aabb(&min, &max, &tools.measure);
    HitObject::Rotate { object: Box::new(object), sin_theta, cos_theta, bbox: around }
}

/// Fills the boundary with a medium of the given density, which scatters
/// evenly with the texture `tex`.
pub fn build_constant_medium<M, A, L, R, D, H, G, T, P>(
    boundary: HitObject,
    density: i64,
    tex: usize,
    tools: &Tools<M, A, L, R, D, H, G, T, P>,
) -> (medium: HitObject) where
    M: Fn(&Aabb) -> ([i64; 3], [Interval; 3]),
    A: Fn(&Point3, &Vec3) -> Point3,
    L: Fn(&Point3, i64) -> (Point3, Point3),
    R: Fn(&Point3, &Vec3, &Vec3) -> QuadFrame,
    D: Fn(i64, i64) -> i64,
    H: Fn(&Interval, i64) -> Interval,
    G: Fn(i64) -> (i64, i64),
    T: Fn(i64, i64, i64, i64) -> (i64, i64),
    P: Fn(i64) -> i64,

    requires
        tools_ready(tools),
    ensures
        forall|model: ToolModel| #[trigger]
            builds(tools, model) ==> medium == (HitObject::ConstantMedium {
                boundary: Box::new(boundary),
                neg_inv_density: (model.free_path)(density),
                phase_function: Material::Isotropic { tex },
            }),
{
    HitObject::ConstantMedium {
        boundary: Box::new(boundary),
        neg_inv_density: (tools.free_path)(density),
        phase_function: Material::Isotropic { tex },
    }
}

/// The smaller of two ranks.
fn least(a: i64, b: i64) -> (r: i64)
    ensures
        r == crate::aabb::lower(a, b),
{
    if a < b {
        a
    } else {
        b
    }
}

/// The larger of two ranks.
fn most(a: i64, b: i64) -> (r: i64)
    ensures
        r == crate::aabb::higher(a, b),
{
    if a > b {
        a
    } else {
        b
    }
}

} // verus!
