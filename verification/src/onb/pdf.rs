//! Sampling strategies: each gives directions and the density with which it
//! gives them.

use vstd::prelude::*;
use crate::hittable_list::material::UNIFORM_SPHERE;
use crate::aabb::Aabb;
use crate::hittable_list::hittable::{Flight, HitRecord, Probe, Surface};
use crate::hittable_list::{
    models,
    models_density,
    kernel_ready,
    DensityModel,
    HitObject,
    Kernel,
    RayModel,
};
use crate::rtweekend::ray::Ray;
use crate::onb::Onb;
use crate::rtweekend::random_int;
use crate::rtweekend::scalar::INFINITY;
use crate::rtweekend::vec3::{Point3, Vec3};

verus! {

/// The closed set of sampling strategies: evenly over the sphere, weighted by
/// the cosine around a normal, towards an object, or either of two strategies
/// with equal chance.
#[derive(Debug)]
pub enum Pdf<'a> {
    Spherepdf,
    Cosinepdf { uvw: Onb },
    Hittablepdf { objects: &'a HitObject, ori: Point3 },
    Mixturepdf { first: Box<Pdf<'a>>, second: Box<Pdf<'a>> },
}

/// How densely directions are given: what is measured of rays against
/// shapes, the cosine of a direction against a basis divided by pi, and the
/// densities towards objects.
pub struct SamplingModel {
    pub ray: RayModel,
    pub cosine: spec_fn(Onb, Vec3) -> i64,
    pub density: DensityModel,
}

/// Every answer that the functions can give is the answer of `model`.
pub open spec fn models_sampling<B, P, S, I, O, N, F, C, D, M>(
    kernel: &Kernel<B, P, S, I, O, N, F>,
    cosine: &C,
    density: &D,
    blend: &M,
    model: SamplingModel,
) -> bool where
    B: Fn(&Ray, &Aabb) -> [(i64, i64); 3],
    P: Fn(&Ray, &HitObject) -> Probe,
    S: Fn(&Ray, &HitObject, i64) -> Surface,
    I: Fn(&Ray, &HitObject) -> Ray,
    O: Fn(&HitObject, &HitRecord) -> HitRecord,
    N: Fn(i64) -> i64,
    F: Fn(&Ray, &HitObject, i64, i64) -> Flight,
    C: Fn(&Onb, &Vec3) -> i64,
    D: Fn(&HitObject, &Point3, &Vec3, &HitRecord) -> i64,
    M: Fn(&Vec<i64>) -> i64,
 {
    &&& models(kernel, model.ray, false)
    &&& forall|uvw: Onb, dir: Vec3, value: i64| #[trigger]
        cosine.ensures((&uvw, &dir), value) ==> value == (model.cosine)(uvw, dir)
    &&& models_density(density, blend, model.density)
}

/// The larger of zero and `value`, where a rank beyond infinity counts as
/// zero.
pub open spec fn positive_part(value: i64) -> i64 {
    if 0 < value <= INFINITY {
        value
    } else {
        0
    }
}

impl<'a> Pdf<'a> {
    /// The density of the strategy at the direction `dir`.
    pub open spec fn value_spec(self, dir: Vec3, model: SamplingModel) -> i64
        decreases self,
    {
        match self {
            Pdf::Spherepdf => UNIFORM_SPHERE,
            Pdf::Cosinepdf { uvw } => positive_part((model.cosine)(uvw, dir)),
            Pdf::Hittablepdf { objects, ori } => objects.pdf_value_spec(
                ori,
                dir,
                model.ray,
                model.density,
            ),
            Pdf::Mixturepdf { first, second } => (model.density.blend)(
                seq![first.value_spec(dir, model), second.value_spec(dir, model)],
            ),
        }
    }

    /// `direction` is a direction that `generate` may return.
    pub open spec fn may_generate<U, G, T>(
        self,
        direction: Vec3,
        sphere: &U,
        lobe: &G,
        toward: &T,
    ) -> bool where U: Fn() -> Vec3, G: Fn(&Onb) -> Vec3, T: Fn(&HitObject, &Point3) -> Vec3
        decreases self,
    {
        match self {
            Pdf::Spherepdf => sphere.ensures((), direction),
            Pdf::Cosinepdf { uvw } => lobe.ensures((&uvw,), direction),
            Pdf::Hittablepdf { objects, ori } => objects.may_aim(ori, direction, toward),
            Pdf::Mixturepdf { first, second } => first.may_generate(
                direction,
                sphere,
                lobe,
                toward,
            ) || second.may_generate(direction, sphere, lobe, toward),
        }
    }

    /// The density with which `generate` gives the direction `dir`. `cosine`
    /// measures the cosine of a direction against the third axis of a basis,
    /// divided by pi; `kernel`, `density` and `blend` are those of
    /// `HitObject::pdf_value`. A mixture blends its two densities with equal
    /// weights.
    pub fn value<B, P, S, I, O, N, F, C, D, M>(
        &self,
        dir: &Vec3,
        kernel: &Kernel<B, P, S, I, O, N, F>,
        cosine: &C,
        density: &D,
        blend: &M,
    ) -> (value: i64) where
        B: Fn(&Ray, &Aabb) -> [(i64, i64); 3],
        P: Fn(&Ray, &HitObject) -> Probe,
        S: Fn(&Ray, &HitObject, i64) -> Surface,
        I: Fn(&Ray, &HitObject) -> Ray,
        O: Fn(&HitObject, &HitRecord) -> HitRecord,
        N: Fn(i64) -> i64,
        F: Fn(&Ray, &HitObject, i64, i64) -> Flight,
        C: Fn(&Onb, &Vec3) -> i64,
        D: Fn(&HitObject, &Point3, &Vec3, &HitRecord) -> i64,
        M: Fn(&Vec<i64>) -> i64,

        requires
            kernel_ready(kernel),
            forall|uvw: Onb, along: Vec3| #[trigger] cosine.requires((&uvw, &along)),
            forall|object: HitObject, from: Point3, along: Vec3, rec: HitRecord| #[trigger]
                density.requires((&object, &from, &along, &rec)),
            forall|values: Vec<i64>| #[trigger] blend.requires((&values,)),
        ensures
            forall|model: SamplingModel| #[trigger]
                models_sampling(kernel, cosine, density, blend, model) ==> value
                    == self.value_spec(*dir, model),
        decreases self,
    {
        match self {
            Pdf::Spherepdf => UNIFORM_SPHERE,
            Pdf::Cosinepdf { uvw } => {
                let measured = cosine(uvw, dir);
                if 0 < measured && measured <= INFINITY {
                    measured
                } else {
                    0
                }
            },
            Pdf::Hittablepdf { objects, ori } => objects.pdf_value(
                ori,
                dir,
                kernel,
                density,
                blend,
            ),
            Pdf::Mixturepdf { first, second } => {
                let mut values: Vec<i64> = Vec::new();
                values.push(first.value(dir, kernel, cosine, density, blend));
                values.push(second.value(dir, kernel, cosine, density, blend));
                proof {
                    assert forall|model: SamplingModel| #[trigger]
                        models_sampling(kernel, cosine, density, blend, model) implies values@
                        == seq![first.value_spec(*dir, model), second.value_spec(*dir, model)] by {
                        assert(values@ =~= seq![
                            first.value_spec(*dir, model),
                            second.value_spec(*dir, model),
                        ]);
                    }
                }
                blend(&values)
            },
        }
    }

    /// A direction drawn by the strategy. `sphere` draws evenly over the
    /// sphere, `lobe` draws around the third axis of a basis, and `toward`
    /// aims at a shape; a mixture flips a fair coin between its two
    /// strategies.
    pub fn generate<U, G, T>(&self, sphere: &U, lobe: &G, toward: &T) -> (direction: Vec3) where
        U: Fn() -> Vec3,
        G: Fn(&Onb) -> Vec3,
        T: Fn(&HitObject, &Point3) -> Vec3,

        requires
            sphere.requires(()),
            forall|uvw: Onb| #[trigger] lobe.requires((&uvw,)),
            forall|object: HitObject, from: Point3| #[trigger] toward.requires((&object, &from)),
        ensures
            self.may_generate(direction, sphere, lobe, toward),
        decreases self,
    {
        match self {
            Pdf::Spherepdf => sphere(),
            Pdf::Cosinepdf { uvw } => lobe(uvw),
            Pdf::Hittablepdf { objects, ori } => objects.random_from(ori, toward),
            Pdf::Mixturepdf { first, second } => {
                if random_int(0, 1) == 0 {
                    first.generate(sphere, lobe, toward)
                } else {
                    second.generate(sphere, lobe, toward)
                }
            },
        }
    }
}

/// The arithmetic and the chance that sampling leaves to its caller.
pub struct Sampler<C, D, M, U, G, T> {
    /// The cosine of a direction against the third axis of a basis, divided
    /// by pi.
    pub cosine: C,
    /// The density with which `toward` aims at a shape that a direction meets.
    pub density: D,
    /// The blend of several densities with equal weights.
    pub blend: M,
    /// A direction drawn evenly from the sphere.
    pub sphere: U,
    /// A direction drawn around the third axis of a basis, weighted by the
    /// cosine.
    pub lobe: G,
    /// A direction drawn from a point towards a sphere or a quad.
    pub toward: T,
}

/// The sampler can be asked anything.
pub open spec fn sampler_ready<C, D, M, U, G, T>(sampler: &Sampler<C, D, M, U, G, T>) -> bool where
    C: Fn(&Onb, &Vec3) -> i64,
    D: Fn(&HitObject, &Point3, &Vec3, &HitRecord) -> i64,
    M: Fn(&Vec<i64>) -> i64,
    U: Fn() -> Vec3,
    G: Fn(&Onb) -> Vec3,
    T: Fn(&HitObject, &Point3) -> Vec3,
 {
    &&& forall|uvw: Onb, along: Vec3| #[trigger] sampler.cosine.requires((&uvw, &along))
    &&& forall|object: HitObject, from: Point3, along: Vec3, rec: HitRecord| #[trigger]
        sampler.density.requires((&object, &from, &along, &rec))
    &&& forall|values: Vec<i64>| #[trigger] sampler.blend.requires((&values,))
    &&& sampler.sphere.requires(())
    &&& forall|uvw: Onb| #[trigger] sampler.lobe.requires((&uvw,))
    &&& forall|object: HitObject, from: Point3| #[trigger]
        sampler.toward.requires((&object, &from))
}

/// What `Pdf::value` promises of the density that it returns.
pub open spec fn value_post<B, P, S, I, O, N, F, C, D, M>(
    pdf: Pdf,
    dir: Vec3,
    value: i64,
    kernel: &Kernel<B, P, S, I, O, N, F>,
    cosine: &C,
    density: &D,
    blend: &M,
) -> bool where
    B: Fn(&Ray, &Aabb) -> [(i64, i64); 3],
    P: Fn(&Ray, &HitObject) -> Probe,
    S: Fn(&Ray, &HitObject, i64) -> Surface,
    I: Fn(&Ray, &HitObject) -> Ray,
    O: Fn(&HitObject, &HitRecord) -> HitRecord,
    N: Fn(i64) -> i64,
    F: Fn(&Ray, &HitObject, i64, i64) -> Flight,
    C: Fn(&Onb, &Vec3) -> i64,
    D: Fn(&HitObject, &Point3, &Vec3, &HitRecord) -> i64,
    M: Fn(&Vec<i64>) -> i64,
 {
    forall|model: SamplingModel| #[trigger]
        models_sampling(kernel, cosine, density, blend, model) ==> value == pdf.value_spec(
            dir,
            model,
        )
}

} // verus!
