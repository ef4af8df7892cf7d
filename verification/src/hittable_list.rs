//! The closed set of things a ray can hit, and the search for the nearest hit.

use vstd::prelude::*;
use crate::aabb::{merge, merge_spec, slab_overlap_spec, Aabb};
use crate::hittable_list::hittable::{
    assemble,
    assemble_spec,
    is_interior,
    is_interior_spec,
    medium_span,
    medium_span_spec,
    plane_crossing,
    plane_crossing_spec,
    scattered,
    scattered_spec,
    sphere_root,
    sphere_root_spec,
    triangle_accepts,
    triangle_accepts_spec,
    Flight,
    HitRecord,
    Probe,
    Surface,
    NEAR,
};
use crate::hittable_list::material::Material;
use crate::rtweekend::interval::Interval;
use crate::rtweekend::random_int;
use crate::rtweekend::ray::Ray;
use crate::rtweekend::vec3::{Point3, Vec3};
use crate::rtweekend::INF;

pub mod bvh;
pub mod closest;
pub mod hittable;
pub mod material;
pub mod perlin;

verus! {

/// A binary tree over the indices of a list of objects. Each inner node holds
/// the box that covers everything below it.
#[derive(Debug)]
pub enum BvhTree {
    Leaf { index: usize },
    Node { left: Box<BvhTree>, right: Box<BvhTree>, bbox: Aabb },
}

/// Everything a ray can hit. Shapes hold their geometry as ranks; aggregates
/// own their children.
#[derive(Debug)]
pub enum HitObject {
    Sphere {
        center_st: Point3,
        radius: i64,
        mat: Material,
        is_moving: bool,
        center_vec: Vec3,
        bbox: Aabb,
    },
    Quad {
        q: Point3,
        u: Vec3,
        v: Vec3,
        w: Vec3,
        mat: Material,
        bbox: Aabb,
        normal: Vec3,
        d: i64,
        area: i64,
    },
    Bvh { objects: Vec<HitObject>, tree: BvhTree, bbox: Aabb },
    HittableList { objects: Vec<HitObject>, bbox: Aabb },
    Translate { object: Box<HitObject>, offset: Vec3, bbox: Aabb },
    Rotate { object: Box<HitObject>, sin_theta: i64, cos_theta: i64, bbox: Aabb },
    ConstantMedium { boundary: Box<HitObject>, neg_inv_density: i64, phase_function: Material },
    Triangle {
        v1: Point3,
        v2: Point3,
        v3: Point3,
        mat: Material,
        normal: Vec3,
        bbox: Aabb,
        area: i64,
    },
}

/// The arithmetic that the search for a hit leaves to its caller. Each function
/// measures; none decides.
pub struct Kernel<B, P, S, I, O, N, F> {
    /// For each axis, the two ray parameters at which a ray crosses the
    /// planes of a box.
    pub crossings: B,
    /// What a sphere, a quad or a triangle needs to accept or reject a ray.
    pub probe: P,
    /// The surface of a sphere, a quad or a triangle at a ray parameter.
    pub surface: S,
    /// A ray as a moved or turned object sees it.
    pub inbound: I,
    /// A hit on a moved or turned object, back where the ray was cast.
    pub outbound: O,
    /// The ray parameter just beyond the one given, from which the far side of
    /// a medium's boundary is looked for.
    pub nudge: N,
    /// The flight of a ray between two ray parameters inside a medium.
    pub flight: F,
}

/// What a kernel measures, as functions of what is measured.
pub struct RayModel {
    pub crossings: spec_fn(Ray, Aabb) -> [(i64, i64); 3],
    pub probe: spec_fn(Ray, HitObject) -> Probe,
    pub surface: spec_fn(Ray, HitObject, i64) -> Surface,
    pub inbound: spec_fn(Ray, HitObject) -> Ray,
    pub outbound: spec_fn(HitObject, HitRecord) -> HitRecord,
    pub nudge: spec_fn(i64) -> i64,
    pub flight: spec_fn(Ray, HitObject, i64, i64) -> Flight,
}

/// The kernel can be asked anything.
pub open spec fn kernel_ready<B, P, S, I, O, N, F>(kernel: &Kernel<B, P, S, I, O, N, F>) -> bool where
    B: Fn(&Ray, &Aabb) -> [(i64, i64); 3],
    P: Fn(&Ray, &HitObject) -> Probe,
    S: Fn(&Ray, &HitObject, i64) -> Surface,
    I: Fn(&Ray, &HitObject) -> Ray,
    O: Fn(&HitObject, &HitRecord) -> HitRecord,
    N: Fn(i64) -> i64,
    F: Fn(&Ray, &HitObject, i64, i64) -> Flight,
 {
    &&& forall|r: Ray, bbox: Aabb| #[trigger] kernel.crossings.requires((&r, &bbox))
    &&& forall|r: Ray, object: HitObject| #[trigger] kernel.probe.requires((&r, &object))
    &&& forall|r: Ray, object: HitObject, t: i64| #[trigger]
        kernel.surface.requires((&r, &object, t))
    &&& forall|r: Ray, object: HitObject| #[trigger] kernel.inbound.requires((&r, &object))
    &&& forall|object: HitObject, rec: HitRecord| #[trigger]
        kernel.outbound.requires((&object, &rec))
    &&& forall|t: i64| #[trigger] kernel.nudge.requires((t,))
    &&& forall|r: Ray, object: HitObject, enter: i64, exit: i64| #[trigger]
        kernel.flight.requires((&r, &object, enter, exit))
}

/// Every answer that the kernel can give is the answer of `model`. The flight
/// of a ray inside a medium, which is a matter of chance in a tracer, has to
/// follow the model only where `media` says that there are media to fly
/// through.
pub open spec fn models<B, P, S, I, O, N, F>(
    kernel: &Kernel<B, P, S, I, O, N, F>,
    model: RayModel,
    media: bool,
) -> bool where
    B: Fn(&Ray, &Aabb) -> [(i64, i64); 3],
    P: Fn(&Ray, &HitObject) -> Probe,
    S: Fn(&Ray, &HitObject, i64) -> Surface,
    I: Fn(&Ray, &HitObject) -> Ray,
    O: Fn(&HitObject, &HitRecord) -> HitRecord,
    N: Fn(i64) -> i64,
    F: Fn(&Ray, &HitObject, i64, i64) -> Flight,
 {
    &&& forall|r: Ray, bbox: Aabb, crossed: [(i64, i64); 3]| #[trigger]
        kernel.crossings.ensures((&r, &bbox), crossed) ==> crossed == (model.crossings)(r, bbox)
    &&& forall|r: Ray, object: HitObject, probe: Probe| #[trigger]
        kernel.probe.ensures((&r, &object), probe) ==> probe == (model.probe)(r, object)
    &&& forall|r: Ray, object: HitObject, t: i64, surface: Surface| #[trigger]
        kernel.surface.ensures((&r, &object, t), surface) ==> surface == (model.surface)(
            r,
            object,
            t,
        )
    &&& forall|r: Ray, object: HitObject, moved: Ray| #[trigger]
        kernel.inbound.ensures((&r, &object), moved) ==> moved == (model.inbound)(r, object)
    &&& forall|object: HitObject, rec: HitRecord, back: HitRecord| #[trigger]
        kernel.outbound.ensures((&object, &rec), back) ==> back == (model.outbound)(object, rec)
    &&& forall|t: i64, beyond: i64| #[trigger]
        kernel.nudge.ensures((t,), beyond) ==> beyond == (model.nudge)(t)
    &&& media ==> forall|r: Ray, object: HitObject, enter: i64, exit: i64, flight: Flight|
     #[trigger]
        kernel.flight.ensures((&r, &object, enter, exit), flight) ==> flight == (model.flight)(
            r,
            object,
            enter,
            exit,
        )
}

/// A kernel that follows a model where there are media follows it where there
/// are fewer.
proof fn lemma_models_fewer<B, P, S, I, O, N, F>(
    kernel: &Kernel<B, P, S, I, O, N, F>,
    media: bool,
    fewer: bool,
) where
    B: Fn(&Ray, &Aabb) -> [(i64, i64); 3],
    P: Fn(&Ray, &HitObject) -> Probe,
    S: Fn(&Ray, &HitObject, i64) -> Surface,
    I: Fn(&Ray, &HitObject) -> Ray,
    O: Fn(&HitObject, &HitRecord) -> HitRecord,
    N: Fn(i64) -> i64,
    F: Fn(&Ray, &HitObject, i64, i64) -> Flight,

    requires
        fewer ==> media,
    ensures
        forall|ray: RayModel| #[trigger]
            models(kernel, ray, media) ==> models(kernel, ray, fewer),
{
}

/// One of the first `n` of `objects` is or holds a medium.
pub open spec fn any_medium(objects: Seq<HitObject>, n: nat) -> bool
    decreases objects, n,
{
    if n == 0 || n > objects.len() {
        false
    } else {
        objects[n - 1].has_medium() || any_medium(objects, (n - 1) as nat)
    }
}

proof fn lemma_member_medium(objects: Seq<HitObject>, n: nat, i: int)
    requires
        0 <= i < n <= objects.len(),
        objects[i].has_medium(),
    ensures
        any_medium(objects, n),
    decreases n,
{
    if i < n - 1 {
        lemma_member_medium(objects, (n - 1) as nat, i);
    }
}

/// Whatever the kernel hands back from a moved or turned object keeps its ray
/// parameter, and whatever it scatters inside a medium it scatters on the
/// stretch that it was given.
pub open spec fn keeps_range<B, P, S, I, O, N, F>(kernel: &Kernel<B, P, S, I, O, N, F>) -> bool where
    B: Fn(&Ray, &Aabb) -> [(i64, i64); 3],
    P: Fn(&Ray, &HitObject) -> Probe,
    S: Fn(&Ray, &HitObject, i64) -> Surface,
    I: Fn(&Ray, &HitObject) -> Ray,
    O: Fn(&HitObject, &HitRecord) -> HitRecord,
    N: Fn(i64) -> i64,
    F: Fn(&Ray, &HitObject, i64, i64) -> Flight,
 {
    &&& forall|object: HitObject, rec: HitRecord, back: HitRecord| #[trigger]
        kernel.outbound.ensures((&object, &rec), back) ==> back.t == rec.t
    &&& forall|r: Ray, object: HitObject, enter: i64, exit: i64, flight: Flight| #[trigger]
        kernel.flight.ensures((&r, &object, enter, exit), flight) ==> (flight.hit_distance
            <= flight.distance_inside_boundary ==> enter <= flight.t <= exit)
}

/// A hit, if there is one, lies within the range.
pub open spec fn within(found: Option<HitRecord>, ray_t: Interval) -> bool {
    found matches Some(rec) ==> ray_t.contains_spec(rec.t)
}

/// What `HitObject::hit` promises of the hit that it returns.
pub open spec fn hit_post<B, P, S, I, O, N, F>(
    object: HitObject,
    r: Ray,
    ray_t: Interval,
    kernel: &Kernel<B, P, S, I, O, N, F>,
    res: Option<HitRecord>,
) -> bool where
    B: Fn(&Ray, &Aabb) -> [(i64, i64); 3],
    P: Fn(&Ray, &HitObject) -> Probe,
    S: Fn(&Ray, &HitObject, i64) -> Surface,
    I: Fn(&Ray, &HitObject) -> Ray,
    O: Fn(&HitObject, &HitRecord) -> HitRecord,
    N: Fn(i64) -> i64,
    F: Fn(&Ray, &HitObject, i64, i64) -> Flight,
 {
    &&& forall|ray: RayModel| #[trigger]
        models(kernel, ray, object.has_medium()) ==> res == object.hit_spec(
        r,
        ray_t,
        ray,
    )
    &&& keeps_range(kernel) ==> within(res, ray_t)
}

/// What a sphere makes of a probe: the hit at the root that it accepts.
pub open spec fn sphere_spec(
    object: HitObject,
    mat: Material,
    r: Ray,
    ray_t: Interval,
    model: RayModel,
) -> Option<HitRecord> {
    match (model.probe)(r, object) {
        Probe::Sphere { discriminant, near, far } => match sphere_root_spec(
            discriminant,
            near,
            far,
            ray_t,
        ) {
            Some(t) => Some(assemble_spec(mat, t, (model.surface)(r, object, t))),
            None => None,
        },
        _ => None,
    }
}

/// What a quad makes of a probe: the hit where the ray crosses its plane
/// within the range and within the quad, with the planar coordinates of the
/// crossing as surface coordinates.
pub open spec fn quad_spec(
    object: HitObject,
    mat: Material,
    r: Ray,
    ray_t: Interval,
    model: RayModel,
) -> Option<HitRecord> {
    match (model.probe)(r, object) {
        Probe::Quad { denom, t, alpha, beta } => {
            if plane_crossing_spec(denom, t, ray_t) && is_interior_spec(alpha, beta) {
                Some(
                    HitRecord {
                        u: alpha,
                        v: beta,
                        ..assemble_spec(mat, t, (model.surface)(r, object, t))
                    },
                )
            } else {
                None
            }
        },
        _ => None,
    }
}

/// What a triangle makes of a probe: the hit where the ray crosses its plane,
/// if the triangle accepts the crossing.
pub open spec fn triangle_spec(
    object: HitObject,
    mat: Material,
    r: Ray,
    ray_t: Interval,
    model: RayModel,
) -> Option<HitRecord> {
    match (model.probe)(r, object) {
        Probe::Triangle { facing, t, turns } => {
            if triangle_accepts_spec(facing, t, turns, ray_t) {
                Some(assemble_spec(mat, t, (model.surface)(r, object, t)))
            } else {
                None
            }
        },
        _ => None,
    }
}

/// What a medium makes of the two crossings of its boundary: the scattering
/// of the ray on the stretch between them, if the ray does not fly further
/// than the stretch is long.
pub open spec fn medium_spec(
    object: HitObject,
    mat: Material,
    first: HitRecord,
    second: HitRecord,
    r: Ray,
    ray_t: Interval,
    model: RayModel,
) -> Option<HitRecord> {
    match medium_span_spec(first.t, second.t, ray_t) {
        Some((enter, exit)) => {
            let flight = (model.flight)(r, object, enter, exit);
            if flight.hit_distance > flight.distance_inside_boundary {
                None
            } else {
                Some(scattered_spec(mat, flight))
            }
        },
        None => None,
    }
}

/// The range in which the far side of a medium's boundary is looked for, once
/// the near side was crossed at `t`.
pub open spec fn beyond_spec(t: i64, model: RayModel) -> Interval {
    Interval { min: (model.nudge)(t), max: INF }
}

/// The range that is left to search once `found` is the nearest hit so far.
pub open spec fn narrowed(ray_t: Interval, found: Option<HitRecord>) -> Interval {
    Interval {
        min: ray_t.min,
        max: match found {
            Some(rec) => rec.t,
            None => ray_t.max,
        },
    }
}

/// The later hit if there is one, else the earlier.
pub open spec fn latest(earlier: Option<HitRecord>, later: Option<HitRecord>) -> Option<
    HitRecord,
> {
    match later {
        Some(rec) => Some(rec),
        None => earlier,
    }
}

/// The nearest hit among the first `n` of `objects`: each object is searched
/// in the range that the hits before it have left.
pub open spec fn scan_spec(
    objects: Seq<HitObject>,
    n: nat,
    r: Ray,
    ray_t: Interval,
    ray: RayModel,
) -> Option<HitRecord>
    decreases objects, n,
{
    if n == 0 || n > objects.len() {
        None
    } else {
        let before = scan_spec(objects, (n - 1) as nat, r, ray_t, ray);
        latest(before, objects[n - 1].hit_spec(r, narrowed(ray_t, before), ray))
    }
}

/// The nearest hit below `tree`: nothing where the ray misses the node's box,
/// else the left subtree and then the right one in the range that the left has
/// left.
pub open spec fn tree_spec(
    tree: BvhTree,
    objects: Seq<HitObject>,
    r: Ray,
    ray_t: Interval,
    ray: RayModel,
) -> Option<HitRecord>
    decreases objects, 0nat, tree,
{
    match tree {
        BvhTree::Leaf { index } => {
            if index < objects.len() {
                objects[index as int].hit_spec(r, ray_t, ray)
            } else {
                None
            }
        },
        BvhTree::Node { left, right, bbox } => {
            if !slab_overlap_spec((ray.crossings)(r, bbox), ray_t) {
                None
            } else {
                let near = tree_spec(*left, objects, r, ray_t, ray);
                latest(near, tree_spec(*right, objects, r, narrowed(ray_t, near), ray))
            }
        },
    }
}

impl HitObject {
    /// The box that the object caches; a medium has that of its boundary.
    pub open spec fn bounds(self) -> Aabb
        decreases self,
    {
        match self {
            HitObject::Sphere { bbox, .. } => bbox,
            HitObject::Quad { bbox, .. } => bbox,
            HitObject::Bvh { bbox, .. } => bbox,
            HitObject::HittableList { bbox, .. } => bbox,
            HitObject::Translate { bbox, .. } => bbox,
            HitObject::Rotate { bbox, .. } => bbox,
            HitObject::ConstantMedium { boundary, .. } => boundary.bounds(),
            HitObject::Triangle { bbox, .. } => bbox,
        }
    }

    /// The object is a medium or holds one.
    pub open spec fn has_medium(self) -> bool
        decreases self, 0nat,
    {
        match self {
            HitObject::ConstantMedium { .. } => true,
            HitObject::HittableList { objects, .. } => any_medium(objects@, objects@.len()),
            HitObject::Bvh { objects, .. } => any_medium(objects@, objects@.len()),
            HitObject::Translate { object, .. } => object.has_medium(),
            HitObject::Rotate { object, .. } => object.has_medium(),
            _ => false,
        }
    }

    /// The nearest hit of the ray `r` on the object within `ray_t`. A shape
    /// accepts or rejects what is measured of the ray; a list is scanned and a
    /// hierarchy descended; a moved or turned object is hit by the ray as it
    /// sees it; a medium scatters the ray between the two crossings of its
    /// boundary.
    pub open spec fn hit_spec(self, r: Ray, ray_t: Interval, ray: RayModel) -> Option<HitRecord>
        decreases self, 0nat,
    {
        match self {
            HitObject::Sphere { mat, .. } => sphere_spec(self, mat, r, ray_t, ray),
            HitObject::Quad { mat, .. } => quad_spec(self, mat, r, ray_t, ray),
            HitObject::Triangle { mat, .. } => triangle_spec(self, mat, r, ray_t, ray),
            HitObject::HittableList { objects, .. } => scan_spec(
                objects@,
                objects@.len(),
                r,
                ray_t,
                ray,
            ),
            HitObject::Bvh { objects, tree, .. } => tree_spec(tree, objects@, r, ray_t, ray),
            HitObject::Translate { object, .. } => match object.hit_spec(
                (ray.inbound)(r, self),
                ray_t,
                ray,
            ) {
                Some(rec) => Some((ray.outbound)(self, rec)),
                None => None,
            },
            HitObject::Rotate { object, .. } => match object.hit_spec(
                (ray.inbound)(r, self),
                ray_t,
                ray,
            ) {
                Some(rec) => Some((ray.outbound)(self, rec)),
                None => None,
            },
            HitObject::ConstantMedium { boundary, phase_function, .. } => match boundary.hit_spec(
                r,
                Interval::universe_spec(),
                ray,
            ) {
                Some(first) => match boundary.hit_spec(r, beyond_spec(first.t, ray), ray) {
                    Some(second) => medium_spec(
                        self,
                        phase_function,
                        first,
                        second,
                        r,
                        ray_t,
                        ray,
                    ),
                    None => None,
                },
                None => None,
            },
        }
    }

    pub fn bounding_box(&self) -> (r: Aabb)
        ensures
            r == self.bounds(),
        decreases self,
    {
        match self {
            HitObject::Sphere { bbox, .. } => *bbox,
            HitObject::Quad { bbox, .. } => *bbox,
            HitObject::Bvh { bbox, .. } => *bbox,
            HitObject::HittableList { bbox, .. } => *bbox,
            HitObject::Translate { bbox, .. } => *bbox,
            HitObject::Rotate { bbox, .. } => *bbox,
            HitObject::ConstantMedium { boundary, .. } => boundary.bounding_box(),
            HitObject::Triangle { bbox, .. } => *bbox,
        }
    }

    /// Where the centre of a sphere is at `time`; anything else has its
    /// centre at the origin. `drift` moves a point along a vector for a time.
    pub fn cur_center<D: Fn(&Point3, &Vec3, i64) -> Point3>(&self, time: i64, drift: &D) -> (center:
        Point3)
        requires
            forall|start: Point3, along: Vec3, at: i64| #[trigger]
                drift.requires((&start, &along, at)),
        ensures
            self matches HitObject::Sphere { center_st, center_vec, .. } ==> drift.ensures(
                (&center_st, &center_vec, time),
                center,
            ),
            !(self is Sphere) ==> center.is_zero(),
    {
        match self {
            HitObject::Sphere { center_st, center_vec, .. } => drift(center_st, center_vec, time),
            _ => Vec3::new(),
        }
    }

    /// The children of a list, in the order in which they were added; any
    /// other object gives none.
    pub fn get_objects(self) -> (r: Vec<HitObject>)
        ensures
            self matches HitObject::HittableList { objects, .. } ==> r@ == objects@,
            !(self is HittableList) ==> r@.len() == 0,
    {
        match self {
            HitObject::HittableList { objects, .. } => objects,
            _ => Vec::new(),
        }
    }

    /// `self` is what `before` becomes when `object` is added to it: a list
    /// gains the object as its last child and its box grows to cover the
    /// object's; anything else stays as it was.
    pub open spec fn grown_by(self, before: HitObject, object: HitObject) -> bool {
        match before {
            HitObject::HittableList { objects, bbox } => {
                &&& self matches HitObject::HittableList { objects: grown, bbox: widened }
                &&& grown@ == objects@.push(object)
                &&& widened == merge_spec(bbox, object.bounds())
            },
            _ => self == before,
        }
    }

    /// Appends `object` to a list and widens the list's box to cover it. Any
    /// other object is left as it is.
    pub fn add(&mut self, object: HitObject)
        ensures
            final(self).grown_by(*old(self), object),
    {
        match self {
            HitObject::HittableList { objects, bbox } => {
                *bbox = merge(bbox, &object.bounding_box());
                objects.push(object);
            },
            _ => (),
        }
    }

    /// The density with which directions from `ori` are aimed at the object,
    /// at the direction `dir`: a sphere or a quad has the density of the model
    /// where the direction meets it and none elsewhere, a triangle has the
    /// density of the model, a list the blend of its children's densities, and
    /// nothing else is aimed at.
    pub open spec fn pdf_value_spec(
        self,
        ori: Point3,
        dir: Vec3,
        ray: RayModel,
        model: DensityModel,
    ) -> i64
        decreases self, 0nat,
    {
        match self {
            HitObject::Sphere { .. } => met_spec(self, ori, dir, ray, model),
            HitObject::Quad { .. } => met_spec(self, ori, dir, ray, model),
            HitObject::Triangle { .. } => (model.density)(self, ori, dir, HitRecord::blank_spec()),
            HitObject::HittableList { objects, .. } => (model.blend)(
                densities_spec(objects@, objects@.len(), ori, dir, ray, model),
            ),
            _ => 0,
        }
    }

    /// `direction` is a direction that `random_from` may return: one that
    /// `toward` can give for a sphere or a quad, one that a child of a list may
    /// return, and the zero vector for everything else and for a list without
    /// children.
    pub open spec fn may_aim<T: Fn(&HitObject, &Point3) -> Vec3>(
        self,
        ori: Point3,
        direction: Vec3,
        toward: &T,
    ) -> bool
        decreases self, 0nat,
    {
        match self {
            HitObject::Sphere { .. } => toward.ensures((&self, &ori), direction),
            HitObject::Quad { .. } => toward.ensures((&self, &ori), direction),
            HitObject::HittableList { objects, .. } => {
                if objects@.len() == 0 {
                    direction.is_zero()
                } else {
                    child_may_aim(objects@, objects@.len(), ori, direction, toward)
                }
            },
            _ => direction.is_zero(),
        }
    }

    /// The density, at the direction `dir`, with which `random_from` aims
    /// from `ori` at the object. `kernel` measures rays against shapes,
    /// `density` measures the density towards a single shape given where the
    /// direction meets it, and `blend` mixes the densities of a list's
    /// children with equal weights.
    pub fn pdf_value<B, P, S, I, O, N, F, D, M>(
        &self,
        ori: &Point3,
        dir: &Vec3,
        kernel: &Kernel<B, P, S, I, O, N, F>,
        density: &D,
        blend: &M,
    ) -> (value: i64) where
        B: Fn(&Ray, &Aabb) -> [(i64, i64); 3],
        P: Fn(&Ray, &HitObject) -> Probe,
        S: Fn(&Ray, &HitObject, i64) -> Surface,
        I: Fn(&Ray, &HitObject) -> Ray,
        O: Fn(&HitObject, &HitRecord) -> HitRecord,
        N: Fn(i64) -> i64,
        F: Fn(&Ray, &HitObject, i64, i64) -> Flight,
        D: Fn(&HitObject, &Point3, &Vec3, &HitRecord) -> i64,
        M: Fn(&Vec<i64>) -> i64,

        requires
            kernel_ready(kernel),
            forall|object: HitObject, from: Point3, along: Vec3, rec: HitRecord| #[trigger]
                density.requires((&object, &from, &along, &rec)),
            forall|values: Vec<i64>| #[trigger] blend.requires((&values,)),
        ensures
            forall|ray: RayModel, model: DensityModel|
                #![trigger models(kernel, ray, false), models_density(density, blend, model)]
                models(kernel, ray, false) && models_density(density, blend, model) ==> value
                    == self.pdf_value_spec(*ori, *dir, ray, model),
        decreases self, 0nat,
    {
        match self {
            HitObject::Sphere { .. } | HitObject::Quad { .. } => {
                assert(!self.has_medium());
                let aimed = Ray { dir: *dir, ori: *ori, tm: 0 };
                let sight = Interval { min: NEAR, max: INF };
                match self.hit(&aimed, &sight, kernel) {
                    Some(rec) => density(self, ori, dir, &rec),
                    None => 0,
                }
            },
            HitObject::Triangle { .. } => {
                let blank = HitRecord::new();
                density(self, ori, dir, &blank)
            },
            HitObject::HittableList { objects, .. } => {
                let mut values: Vec<i64> = Vec::new();
                let mut i: usize = 0;
                while i < objects.len()
                    invariant
                        i <= objects.len(),
                        *self matches HitObject::HittableList { objects: o, .. } && o == *objects,
                        kernel_ready(kernel),
                        forall|object: HitObject, from: Point3, along: Vec3, rec: HitRecord|
                         #[trigger]
                            density.requires((&object, &from, &along, &rec)),
                        forall|values: Vec<i64>| #[trigger] blend.requires((&values,)),
                        forall|ray: RayModel, model: DensityModel|
                            #![trigger models(kernel, ray, false), models_density(density, blend, model)]
                            models(kernel, ray, false) && models_density(density, blend, model)
                                ==> values@
                                == densities_spec(objects@, i as nat, *ori, *dir, ray, model),
                    decreases objects.len() - i,
                {
                    let value = objects[i].pdf_value(ori, dir, kernel, density, blend);
                    values.push(value);
                    i += 1;
                }
                blend(&values)
            },
            _ => 0,
        }
    }

    /// A random direction from `ori` towards the object. A list picks one of
    /// its children at random, each with the same chance; `toward` aims at a
    /// sphere or a quad.
    pub fn random_from<T>(&self, ori: &Point3, toward: &T) -> (direction: Vec3) where
        T: Fn(&HitObject, &Point3) -> Vec3,

        requires
            forall|object: HitObject, from: Point3| #[trigger] toward.requires((&object, &from)),
        ensures
            self.may_aim(*ori, direction, toward),
        decreases self, 0nat,
    {
        match self {
            HitObject::Sphere { .. } => toward(self, ori),
            HitObject::Quad { .. } => toward(self, ori),
            HitObject::HittableList { objects, .. } => {
                if objects.len() == 0 {
                    return Vec3::new();
                }
                let int_size: i32 = if objects.len() > 0x7FFF_FFFF {
                    0x7FFF_FFFF
                } else {
                    objects.len() as i32
                };
                let chosen = random_int(0, int_size - 1) as usize;
                let direction = objects[chosen].random_from(ori, toward);
                proof {
                    lemma_child_may_aim(
                        objects@,
                        objects@.len(),
                        chosen as int,
                        *ori,
                        direction,
                        toward,
                    );
                }
                direction
            },
            _ => Vec3::new(),
        }
    }

    /// The nearest hit of the ray `r` on the object within `ray_t`. The
    /// kernel measures; what is a hit and which hit is nearest is decided here.
    pub fn hit<B, P, S, I, O, N, F>(
        &self,
        r: &Ray,
        ray_t: &Interval,
        kernel: &Kernel<B, P, S, I, O, N, F>,
    ) -> (res: Option<HitRecord>) where
        B: Fn(&Ray, &Aabb) -> [(i64, i64); 3],
        P: Fn(&Ray, &HitObject) -> Probe,
        S: Fn(&Ray, &HitObject, i64) -> Surface,
        I: Fn(&Ray, &HitObject) -> Ray,
        O: Fn(&HitObject, &HitRecord) -> HitRecord,
        N: Fn(i64) -> i64,
        F: Fn(&Ray, &HitObject, i64, i64) -> Flight,

        requires
            kernel_ready(kernel),
        ensures
            forall|ray: RayModel| #[trigger]
                models(kernel, ray, self.has_medium()) ==> res == self.hit_spec(
                *r,
                *ray_t,
                ray,
            ),
            keeps_range(kernel) ==> within(res, *ray_t),
        decreases self, 0nat,
    {
        match self {
            HitObject::Sphere { mat, .. } => {
                match (kernel.probe)(r, self) {
                    Probe::Sphere { discriminant, near, far } => {
                        match sphere_root(discriminant, near, far, ray_t) {
                            Some(t) => {
                                let surface = (kernel.surface)(r, self, t);
                                Some(assemble(*mat, t, &surface))
                            },
                            None => None,
                        }
                    },
                    _ => None,
                }
            },
            HitObject::Quad { mat, .. } => {
                match (kernel.probe)(r, self) {
                    Probe::Quad { denom, t, alpha, beta } => {
                        if !plane_crossing(denom, t, ray_t) {
                            return None;
                        }
                        let mut coordinates = HitRecord::new();
                        if !is_interior(alpha, beta, &mut coordinates) {
                            return None;
                        }
                        let surface = (kernel.surface)(r, self, t);
                        let mut rec = assemble(*mat, t, &surface);
                        rec.u = coordinates.u;
                        rec.v = coordinates.v;
                        Some(rec)
                    },
                    _ => None,
                }
            },
            HitObject::Triangle { mat, .. } => {
                match (kernel.probe)(r, self) {
                    Probe::Triangle { facing, t, turns } => {
                        if !triangle_accepts(facing, t, &turns, ray_t) {
                            return None;
                        }
                        let surface = (kernel.surface)(r, self, t);
                        Some(assemble(*mat, t, &surface))
                    },
                    _ => None,
                }
            },
            HitObject::Bvh { objects, tree, .. } => {
                assert(self.has_medium() == any_medium(objects@, objects@.len()));
                hit_tree(tree, objects, r, ray_t, kernel)
            },
            HitObject::HittableList { objects, .. } => {
                let mut best: Option<HitRecord> = None;
                let mut closest_so_far = ray_t.max;
                let mut i: usize = 0;
                while i < objects.len()
                    invariant
                        i <= objects.len(),
                        *self matches HitObject::HittableList { objects: o, .. } && o == *objects,
                        kernel_ready(kernel),
                        closest_so_far == narrowed(*ray_t, best).max,
                        keeps_range(kernel) ==> within(best, *ray_t),
                        forall|ray: RayModel| #[trigger]
                            models(kernel, ray, self.has_medium()) ==> best == scan_spec(
                                objects@,
                                i as nat,
                                *r,
                                *ray_t,
                                ray,
                            ),
                    decreases objects.len() - i,
                {
                    let reach = Interval { min: ray_t.min, max: closest_so_far };
                    let found = objects[i].hit(r, &reach, kernel);
                    proof {
                        if objects[i as int].has_medium() {
                            lemma_member_medium(objects@, objects@.len(), i as int);
                        }
                        lemma_models_fewer(
                            kernel,
                            self.has_medium(),
                            objects[i as int].has_medium(),
                        );
                    }
                    if let Some(rec) = found {
                        closest_so_far = rec.t;
                        best = Some(rec);
                    }
                    i += 1;
                }
                best
            },
            HitObject::Translate { object, .. } => {
                assert(self.has_medium() == object.has_medium());
                let offset_r = (kernel.inbound)(r, self);
                match object.hit(&offset_r, ray_t, kernel) {
                    Some(rec) => Some((kernel.outbound)(self, &rec)),
                    None => None,
                }
            },
            HitObject::Rotate { object, .. } => {
                assert(self.has_medium() == object.has_medium());
                let rotated_r = (kernel.inbound)(r, self);
                match object.hit(&rotated_r, ray_t, kernel) {
                    Some(rec) => Some((kernel.outbound)(self, &rec)),
                    None => None,
                }
            },
            HitObject::ConstantMedium { boundary, phase_function, .. } => {
                proof {
                    lemma_models_fewer(kernel, true, boundary.has_medium());
                }
                let rec1 = match boundary.hit(r, &Interval::universe(), kernel) {
                    Some(rec) => rec,
                    None => {
                        return None;
                    },
                };
                let beyond = Interval { min: (kernel.nudge)(rec1.t), max: INF };
                let rec2 = match boundary.hit(r, &beyond, kernel) {
                    Some(rec) => rec,
                    None => {
                        return None;
                    },
                };
                match medium_span(rec1.t, rec2.t, ray_t) {
                    Some((enter, exit)) => {
                        let flight = (kernel.flight)(r, self, enter, exit);
                        if flight.hit_distance > flight.distance_inside_boundary {
                            return None;
                        }
                        Some(scattered(*phase_function, &flight))
                    },
                    None => None,
                }
            },
        }
    }
}

/// One of the first `n` of `objects` may return `direction` from
/// `random_from`.
pub open spec fn child_may_aim<T: Fn(&HitObject, &Point3) -> Vec3>(
    objects: Seq<HitObject>,
    n: nat,
    ori: Point3,
    direction: Vec3,
    toward: &T,
) -> bool
    decreases objects, n,
{
    if n == 0 || n > objects.len() {
        false
    } else {
        objects[n - 1].may_aim(ori, direction, toward) || child_may_aim(
            objects,
            (n - 1) as nat,
            ori,
            direction,
            toward,
        )
    }
}

proof fn lemma_child_may_aim<T: Fn(&HitObject, &Point3) -> Vec3>(
    objects: Seq<HitObject>,
    n: nat,
    chosen: int,
    ori: Point3,
    direction: Vec3,
    toward: &T,
)
    requires
        0 <= chosen < n <= objects.len(),
        objects[chosen].may_aim(ori, direction, toward),
    ensures
        child_may_aim(objects, n, ori, direction, toward),
    decreases n,
{
    if chosen < n - 1 {
        lemma_child_may_aim(objects, (n - 1) as nat, chosen, ori, direction, toward);
    }
}

/// How densely directions are aimed at things: the density towards a shape
/// that the direction meets, and the blend of several densities with equal
/// weights.
pub struct DensityModel {
    pub density: spec_fn(HitObject, Point3, Vec3, HitRecord) -> i64,
    pub blend: spec_fn(Seq<i64>) -> i64,
}

/// Every answer that the two functions can give is the answer of `model`.
pub open spec fn models_density<D, M>(density: &D, blend: &M, model: DensityModel) -> bool where
    D: Fn(&HitObject, &Point3, &Vec3, &HitRecord) -> i64,
    M: Fn(&Vec<i64>) -> i64,
 {
    &&& forall|object: HitObject, ori: Point3, dir: Vec3, rec: HitRecord, value: i64| #[trigger]
        density.ensures((&object, &ori, &dir, &rec), value) ==> value == (model.density)(
            object,
            ori,
            dir,
            rec,
        )
    &&& forall|values: Vec<i64>, value: i64| #[trigger]
        blend.ensures((&values,), value) ==> value == (model.blend)(values@)
}

/// The ray from `ori` along `dir` with which a direction is tried out.
pub open spec fn aimed_spec(ori: Point3, dir: Vec3) -> Ray {
    Ray { dir, ori, tm: 0 }
}

/// The range in which a ray looks for surfaces.
pub open spec fn sight_spec() -> Interval {
    Interval { min: NEAR, max: INF }
}

/// The density towards a shape that has to be met to be aimed at: none where
/// the direction misses the shape.
pub open spec fn met_spec(
    object: HitObject,
    ori: Point3,
    dir: Vec3,
    ray: RayModel,
    model: DensityModel,
) -> i64 {
    match object.hit_spec(aimed_spec(ori, dir), sight_spec(), ray) {
        Some(rec) => (model.density)(object, ori, dir, rec),
        None => 0,
    }
}

/// The densities of the first `n` of `objects`, in order.
pub open spec fn densities_spec(
    objects: Seq<HitObject>,
    n: nat,
    ori: Point3,
    dir: Vec3,
    ray: RayModel,
    model: DensityModel,
) -> Seq<i64>
    decreases objects, n,
{
    if n == 0 || n > objects.len() {
        Seq::empty()
    } else {
        densities_spec(objects, (n - 1) as nat, ori, dir, ray, model).push(
            objects[n - 1].pdf_value_spec(ori, dir, ray, model),
        )
    }
}

/// The nearest hit of the ray `r` below `tree`, whose leaves index `objects`.
pub fn hit_tree<B, P, S, I, O, N, F>(
    tree: &BvhTree,
    objects: &Vec<HitObject>,
    r: &Ray,
    ray_t: &Interval,
    kernel: &Kernel<B, P, S, I, O, N, F>,
) -> (res: Option<HitRecord>) where
    B: Fn(&Ray, &Aabb) -> [(i64, i64); 3],
    P: Fn(&Ray, &HitObject) -> Probe,
    S: Fn(&Ray, &HitObject, i64) -> Surface,
    I: Fn(&Ray, &HitObject) -> Ray,
    O: Fn(&HitObject, &HitRecord) -> HitRecord,
    N: Fn(i64) -> i64,
    F: Fn(&Ray, &HitObject, i64, i64) -> Flight,

    requires
        kernel_ready(kernel),
    ensures
        forall|ray: RayModel| #[trigger]
            models(kernel, ray, any_medium(objects@, objects@.len())) ==> res == tree_spec(
                *tree,
                objects@,
                *r,
                *ray_t,
                ray,
            ),
        keeps_range(kernel) ==> within(res, *ray_t),
    decreases objects@, 0nat, tree,
{
    match tree {
        BvhTree::Leaf { index } => {
            if *index < objects.len() {
                proof {
                    if objects[*index as int].has_medium() {
                        lemma_member_medium(objects@, objects@.len(), *index as int);
                    }
                    lemma_models_fewer(
                        kernel,
                        any_medium(objects@, objects@.len()),
                        objects[*index as int].has_medium(),
                    );
                }
                objects[*index].hit(r, ray_t, kernel)
            } else {
                None
            }
        },
        BvhTree::Node { left, right, bbox } => {
            if !bbox.hit(r, ray_t, &kernel.crossings) {
                return None;
            }
            let near = hit_tree(left, objects, r, ray_t, kernel);
            let reach = Interval {
                min: ray_t.min,
                max: match near {
                    Some(rec) => rec.t,
                    None => ray_t.max,
                },
            };
            let far = hit_tree(right, objects, r, &reach, kernel);
            if far.is_some() {
                far
            } else {
                near
            }
        },
    }
}

} // verus!
