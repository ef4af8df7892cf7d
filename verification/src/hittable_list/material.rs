//! Surface behaviours: what a material emits and how it scatters.

use vstd::prelude::*;
use crate::hittable_list::hittable::HitRecord;
use crate::onb::pdf::Pdf;
use crate::onb::Onb;
use crate::rtweekend::ray::Ray;
use crate::rtweekend::scalar::ONE;
use crate::rtweekend::vec3::{Color, Vec3};

verus! {

/// Rank of 1/(4 pi), the density of directions spread evenly over the sphere.
pub const UNIFORM_SPHERE: i64 = 0x3FB4_5F30_6DC9_C883;

/// The closed set of surface behaviours. Textures are named by handle, so one
/// texture serves any number of materials.
#[derive(Clone, Copy, Debug, PartialEq, Eq)]
pub enum Material {
    Lambertian { tex: usize },
    Metal { albedo: Color, fuzz: i64 },
    Dielectric { refraction_index: i64 },
    Diffuselight { tex: usize },
    Isotropic { tex: usize },
}

/// What a material hands to the integrator when it scatters a ray: how much of
/// the incoming light survives, the strategy by which to sample the outgoing
/// direction, and, for a mirror or a glass, the one outgoing ray in place of a
/// strategy.
#[derive(Debug)]
pub struct ScatterRecord<'a> {
    pub attenuation: Color,
    pub pdf_ptr: Box<Pdf<'a>>,
    pub skip_pdf: bool,
    pub skip_pdf_ray: Ray,
}

/// What was measured at a hit for the material there. A diffuse surface and a
/// volume read `texture`, and the diffuse surface `basis` too; a metal reads
/// `reflected` and `facing`; a glass reads `reflected`, `refracted`, `bend`,
/// `reflectance` and `draw`.
#[derive(Clone, Copy, Debug)]
pub struct Scattering {
    /// The value of the material's texture at the hit.
    pub texture: Color,
    /// A basis whose third axis is the normal at the hit.
    pub basis: Onb,
    /// The mirrored direction; for a metal, with its fuzz applied.
    pub reflected: Vec3,
    /// The dot product of `reflected` with the normal.
    pub facing: i64,
    /// The refracted direction.
    pub refracted: Vec3,
    /// The ratio of refraction indices times the sine of the angle of
    /// incidence: above one the ray cannot refract.
    pub bend: i64,
    /// The share of light that a glass reflects at this angle.
    pub reflectance: i64,
    /// A random number from zero up to one.
    pub draw: i64,
}

/// A glass reflects: it cannot refract, or the draw falls below the
/// reflectance.
pub open spec fn reflects(measured: Scattering) -> bool {
    measured.bend > ONE || measured.reflectance > measured.draw
}

/// The ray that stands in a record that sends no ray on.
pub open spec fn idle(ray: Ray) -> bool {
    ray.tm == 0 && ray.dir.is_zero() && ray.ori.is_zero()
}

impl Material {
    /// What `emitted` returns: a light shows its texture on its front face,
    /// and everything else is black.
    pub open spec fn emitted_spec(self, front_face: bool, texture: Color) -> Color {
        match self {
            Material::Diffuselight { .. } => if front_face {
                texture
            } else {
                (Vec3 { e: [0, 0, 0] })
            },
            _ => (Vec3 { e: [0, 0, 0] }),
        }
    }

    /// What `scattering_pdf` returns: a diffuse surface has the density
    /// `cosine_over_pi` on the side of its normal and none behind it, a volume
    /// scatters evenly, and a mirror, a glass and a light have no density.
    pub open spec fn scattering_pdf_spec(self, cosine: i64, cosine_over_pi: i64) -> i64 {
        match self {
            Material::Lambertian { .. } => if cosine < 0 {
                0
            } else {
                cosine_over_pi
            },
            Material::Isotropic { .. } => UNIFORM_SPHERE,
            _ => 0,
        }
    }

    /// `scattered` is what `scatter` returns. A diffuse surface keeps the
    /// texture's share of the light and samples around the normal; a volume
    /// keeps the texture's share and samples the whole sphere; a metal keeps
    /// its albedo and sends the reflected ray on, unless that ray points into
    /// the surface, in which case the light is absorbed; a glass keeps all
    /// light and sends on the reflected ray when it cannot refract or when the
    /// draw falls below the reflectance, and the refracted ray otherwise; a
    /// light does not scatter.
    pub open spec fn scatter_spec(
        self,
        r_in: Ray,
        rec: HitRecord,
        measured: Scattering,
        scattered: Option<ScatterRecord>,
    ) -> bool {
        match self {
            Material::Lambertian { .. } => {
                &&& scattered matches Some(srec)
                &&& srec.attenuation == measured.texture
                &&& *srec.pdf_ptr == (Pdf::Cosinepdf { uvw: measured.basis })
                &&& !srec.skip_pdf
                &&& idle(srec.skip_pdf_ray)
            },
            Material::Isotropic { .. } => {
                &&& scattered matches Some(srec)
                &&& srec.attenuation == measured.texture
                &&& *srec.pdf_ptr == Pdf::Spherepdf
                &&& !srec.skip_pdf
                &&& idle(srec.skip_pdf_ray)
            },
            Material::Metal { albedo, .. } => {
                if measured.facing <= 0 {
                    scattered is None
                } else {
                    &&& scattered matches Some(srec)
                    &&& srec.attenuation == albedo
                    &&& *srec.pdf_ptr == Pdf::Spherepdf
                    &&& srec.skip_pdf
                    &&& srec.skip_pdf_ray == (Ray {
                        dir: measured.reflected,
                        ori: rec.p,
                        tm: r_in.tm,
                    })
                }
            },
            Material::Dielectric { .. } => {
                &&& scattered matches Some(srec)
                &&& forall|axis: int| 0 <= axis < 3 ==> srec.attenuation.e[axis] == ONE
                &&& *srec.pdf_ptr == Pdf::Spherepdf
                &&& srec.skip_pdf
                &&& srec.skip_pdf_ray == (Ray {
                    dir: if reflects(measured) {
                        measured.reflected
                    } else {
                        measured.refracted
                    },
                    ori: rec.p,
                    tm: r_in.tm,
                })
            },
            Material::Diffuselight { .. } => scattered is None,
        }
    }

    /// Scatters the ray `r_in` at the hit `rec`, or absorbs it.
    pub fn scatter(&self, r_in: &Ray, rec: &HitRecord, measured: &Scattering) -> (scattered:
        Option<ScatterRecord<'static>>)
        ensures
            self.scatter_spec(*r_in, *rec, *measured, scattered),
    {
        match self {
            Material::Lambertian { .. } => Some(
                ScatterRecord {
                    attenuation: measured.texture,
                    pdf_ptr: Box::new(Pdf::Cosinepdf { uvw: measured.basis }),
                    skip_pdf: false,
                    skip_pdf_ray: Ray::new(),
                },
            ),
            Material::Metal { albedo, .. } => {
                if measured.facing <= 0 {
                    return None;
                }
                Some(
                    ScatterRecord {
                        attenuation: *albedo,
                        pdf_ptr: Box::new(Pdf::Spherepdf),
                        skip_pdf: true,
                        skip_pdf_ray: Ray { dir: measured.reflected, ori: rec.p, tm: r_in.tm },
                    },
                )
            },
            Material::Dielectric { .. } => {
                let cannot_refract = measured.bend > ONE;
                let direction = if cannot_refract || measured.reflectance > measured.draw {
                    measured.reflected
                } else {
                    measured.refracted
                };
                Some(
                    ScatterRecord {
                        attenuation: Vec3 { e: [ONE, ONE, ONE] },
                        pdf_ptr: Box::new(Pdf::Spherepdf),
                        skip_pdf: true,
                        skip_pdf_ray: Ray { dir: direction, ori: rec.p, tm: r_in.tm },
                    },
                )
            },
            Material::Diffuselight { .. } => None,
            Material::Isotropic { .. } => Some(
                ScatterRecord {
                    attenuation: measured.texture,
                    pdf_ptr: Box::new(Pdf::Spherepdf),
                    skip_pdf: false,
                    skip_pdf_ray: Ray::new(),
                },
            ),
        }
    }

    /// The light that the surface gives off at a hit. `texture` is the value of
    /// the material's texture at the hit.
    pub fn emitted(&self, rec: &HitRecord, texture: Color) -> (c: Color)
        ensures
            c == self.emitted_spec(rec.front_face, texture),
    {
        let c = match self {
            Material::Diffuselight { .. } => {
                if !rec.front_face {
                    Vec3::new()
                } else {
                    texture
                }
            },
            _ => Vec3::new(),
        };
        assert(c.e =~= self.emitted_spec(rec.front_face, texture).e);
        c
    }

    /// The density with which the surface scatters into a direction. `cosine`
    /// is the rank of the cosine between the normal and that direction, and
    /// `cosine_over_pi` the rank of that cosine divided by pi.
    pub fn scattering_pdf(&self, cosine: i64, cosine_over_pi: i64) -> (density: i64)
        ensures
            density == self.scattering_pdf_spec(cosine, cosine_over_pi),
    {
        match self {
            Material::Lambertian { .. } => {
                if cosine < 0 {
                    0
                } else {
                    cosine_over_pi
                }
            },
            Material::Isotropic { .. } => UNIFORM_SPHERE,
            _ => 0,
        }
    }
}

} // verus!
