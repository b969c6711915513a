//! The closed set of surface behaviours: diffuse, metal, dielectric,
//! emissive and isotropic-volume.  A material turns an intersection into an
//! optional scattered ray with an attenuation, and an emitted radiance.

use vstd::prelude::*;

use crate::fixed::{fxadd, fxdiv, fxmul, fxsqrt, fxsub, Fx, SCALE};
use crate::hittables::HitRecord;
use crate::ray::Ray;
use crate::textures::{spec_texture_value, texture_wf, SolidColor, Texture};
use crate::utils::random_double;
use crate::vec3::{
    spec_dot, spec_len_sq, spec_reflect, spec_refract, spec_unit, spec_vadd, spec_vneg,
    spec_vscale, Vec3,
};

verus! {

pub enum Material {
    Lambertian(Lambertian),
    Metal(Metal),
    Dielectric(Dielectric),
    DiffuseLight(DiffuseLight),
    Isotropic(Isotropic),
}

pub struct Lambertian {
    pub texture: Box<Texture>,
}

pub struct Metal {
    pub albedo: Vec3,
    pub fuzz: Fx,
}

pub struct Dielectric {
    pub refraction_index: Fx,
}

pub struct DiffuseLight {
    pub texture: Box<Texture>,
}

pub struct Isotropic {
    pub texture: Box<Texture>,
}

/// The zero radiance.
pub open spec fn spec_black() -> Vec3 {
    Vec3 { x: Fx { bits: 0 }, y: Fx { bits: 0 }, z: Fx { bits: 0 } }
}

/// The unit attenuation.
pub open spec fn spec_white() -> Vec3 {
    Vec3 { x: Fx { bits: SCALE }, y: Fx { bits: SCALE }, z: Fx { bits: SCALE } }
}

/// Every texture the material holds is consistent.
pub open spec fn material_wf(m: Material) -> bool {
    match m {
        Material::Lambertian(l) => texture_wf(*l.texture),
        Material::Metal(_) => true,
        Material::Dielectric(_) => true,
        Material::DiffuseLight(d) => texture_wf(*d.texture),
        Material::Isotropic(i) => texture_wf(*i.texture),
    }
}

/// The radiance a material emits at a surface point: the texture value for
/// a light, black for every other material.
pub open spec fn spec_emitted(m: Material, u: int, v: int, p: Vec3) -> Vec3 {
    match m {
        Material::DiffuseLight(d) => spec_texture_value(*d.texture, u, v, p),
        _ => spec_black(),
    }
}

/// The attenuation a scattering material applies along its scattered ray.
pub open spec fn spec_attenuation(m: Material, rec: HitRecord) -> Vec3 {
    match m {
        Material::Lambertian(l) => spec_texture_value(
            *l.texture,
            rec.u.bits as int,
            rec.v.bits as int,
            rec.p,
        ),
        Material::Metal(mt) => mt.albedo,
        Material::Dielectric(_) => spec_white(),
        Material::DiffuseLight(_) => spec_black(),
        Material::Isotropic(i) => spec_texture_value(
            *i.texture,
            rec.u.bits as int,
            rec.v.bits as int,
            rec.p,
        ),
    }
}

/// The relative refraction index a dielectric uses at a hit: the reciprocal
/// when the ray comes from outside.
pub open spec fn spec_diel_ri(d: Dielectric, front_face: bool) -> int {
    if front_face {
        fxdiv(SCALE as int, d.refraction_index.bits as int)
    } else {
        d.refraction_index.bits as int
    }
}

/// The cosine the dielectric sees: the inner product of the reversed unit
/// direction with the normal, capped at one.
pub open spec fn spec_diel_cos(unit_direction: Vec3, normal: Vec3) -> int {
    let d = spec_dot(spec_vneg(unit_direction), normal);
    if d <= SCALE {
        d
    } else {
        SCALE as int
    }
}

/// The sine from the cosine.
pub open spec fn spec_diel_sin(cos_theta: int) -> int {
    fxsqrt(fxsub(SCALE as int, fxmul(cos_theta, cos_theta)))
}

/// Total internal reflection: the scaled sine exceeds one, so no refracted
/// direction exists.
pub open spec fn spec_cannot_refract(d: Dielectric, r_in: Ray, rec: HitRecord) -> bool {
    let ud = spec_unit(r_in.direction);
    let ri = spec_diel_ri(d, rec.front_face);
    let cos_theta = spec_diel_cos(ud, rec.normal);
    fxmul(ri, spec_diel_sin(cos_theta)) > SCALE
}

/// Schlick's reflectance approximation, as computed.
pub open spec fn spec_reflectance(cosine: int, ref_idx: int) -> int {
    let r0 = fxdiv(fxsub(SCALE as int, ref_idx), fxadd(SCALE as int, ref_idx));
    let r0sq = fxmul(r0, r0);
    let m = fxsub(SCALE as int, cosine);
    let m2 = fxmul(m, m);
    let m4 = fxmul(m2, m2);
    let m5 = fxmul(m4, m);
    fxadd(r0sq, fxmul(fxsub(SCALE as int, r0sq), m5))
}

/// Every colour the material can emit or attenuate by is nonnegative.
pub open spec fn material_nonneg(m: Material) -> bool {
    match m {
        Material::Lambertian(l) => crate::textures::tex_nonneg(*l.texture),
        Material::Metal(mt) => crate::vec3::vec_nonneg(mt.albedo),
        Material::Dielectric(_) => true,
        Material::DiffuseLight(d) => crate::textures::tex_nonneg(*d.texture),
        Material::Isotropic(i) => crate::textures::tex_nonneg(*i.texture),
    }
}

/// A nonnegative material emits and attenuates by nonnegative colours.
pub proof fn lemma_material_nonneg(m: Material, u: int, v: int, p: Vec3, rec: HitRecord)
    requires
        material_nonneg(m),
    ensures
        crate::vec3::vec_nonneg(spec_emitted(m, u, v, p)),
        crate::vec3::vec_nonneg(spec_attenuation(m, rec)),
{
    match m {
        Material::Lambertian(l) => {
            crate::textures::lemma_texture_value_nonneg(
                *l.texture,
                rec.u.bits as int,
                rec.v.bits as int,
                rec.p,
            );
        },
        Material::Metal(_) => {
        },
        Material::Dielectric(_) => {
        },
        Material::DiffuseLight(d) => {
            crate::textures::lemma_texture_value_nonneg(*d.texture, u, v, p);
        },
        Material::Isotropic(i) => {
            crate::textures::lemma_texture_value_nonneg(
                *i.texture,
                rec.u.bits as int,
                rec.v.bits as int,
                rec.p,
            );
        },
    }
}

impl Lambertian {
    /// A diffuse material of one solid colour.
    pub fn new(albedo: Vec3) -> (r: Lambertian)
        ensures
            *r.texture == Texture::Solid(SolidColor { albedo }),
    {
        Lambertian { texture: Box::new(Texture::Solid(SolidColor::new(albedo))) }
    }

    /// A diffuse material over a texture.
    pub fn new_from_texture(texture: Box<Texture>) -> (r: Lambertian)
        ensures
            r.texture == texture,
    {
        Lambertian { texture }
    }

    /// Always scatters: the direction is the normal nudged by a random
    /// near-unit sample (the normal alone when the sum cancels), the origin
    /// is the hit point, the attenuation the texture value.
    pub fn scatter(&self, _r_in: &Ray, rec: &HitRecord) -> (res: Option<(Option<Ray>, Vec3)>)
        requires
            texture_wf(*self.texture),
        ensures
            res is Some,
            res matches Some(sc) ==> sc.0 is Some && sc.1 == spec_texture_value(
                *self.texture,
                rec.u.bits as int,
                rec.v.bits as int,
                rec.p,
            ),
            res matches Some(sc) ==> (sc.0 matches Some(sr) ==> sr.origin == rec.p && exists|
                d: Vec3,
            |
                crate::vec3::spec_len_sq(d) < crate::fixed::SCALE && (sr.direction == spec_vadd(
                    rec.normal,
                    #[trigger] spec_unit(d),
                ) || sr.direction == rec.normal)),
    {
        let sample = Vec3::random_unit_vector();
        let ghost d = choose|d: Vec3|
            crate::vec3::spec_len_sq(d) < crate::fixed::SCALE && sample == spec_unit(d);
        let mut scatter_direction = rec.normal.add(sample);
        if scatter_direction.near_zero() {
            scatter_direction = rec.normal;
        }
        proof {
            assert(crate::vec3::spec_len_sq(d) < crate::fixed::SCALE && (scatter_direction
                == spec_vadd(rec.normal, spec_unit(d)) || scatter_direction == rec.normal));
        }
        let scattered = Ray::new(rec.p, scatter_direction);
        let attenuation = self.texture.value(rec.u, rec.v, rec.p);
        Some((Some(scattered), attenuation))
    }

    /// Diffuse surfaces emit nothing.
    pub fn emitted(&self, _u: Fx, _v: Fx, _p: Vec3) -> (r: Vec3)
        ensures
            r == spec_black(),
    {
        Vec3::new(Fx::zero(), Fx::zero(), Fx::zero())
    }
}

impl Metal {
    /// A metal; fuzz at one or above is clamped to one.
    pub fn new(albedo: Vec3, fuzz: Fx) -> (r: Metal)
        ensures
            r.albedo == albedo,
            r.fuzz.bits == if fuzz.bits < SCALE {
                fuzz.bits
            } else {
                SCALE
            },
    {
        let fuzz = if fuzz.bits < SCALE {
            fuzz
        } else {
            Fx::one()
        };
        Metal { albedo, fuzz }
    }

    /// Always scatters: the mirrored direction roughened by the fuzz scale,
    /// from the hit point, attenuated by the albedo.  A fuzzed direction
    /// may point into the surface; the next hit's lower parameter bound
    /// swallows such rays.
    pub fn scatter(&self, r_in: &Ray, rec: &HitRecord) -> (res: Option<(Option<Ray>, Vec3)>)
        ensures
            res is Some,
            res matches Some(sc) ==> sc.0 is Some && sc.1 == self.albedo,
            res matches Some(sc) ==> (sc.0 matches Some(sr) ==> sr.origin == rec.p && exists|
                d: Vec3,
            |
                spec_len_sq(d) < crate::fixed::SCALE && sr.direction == spec_vadd(
                    spec_unit(spec_reflect(r_in.direction, rec.normal)),
                    spec_vscale(#[trigger] spec_unit(d), self.fuzz.bits as int),
                )),
    {
        let reflected = Vec3::reflect(r_in.direction, rec.normal);
        let sample = Vec3::random_unit_vector();
        let ghost d = choose|d: Vec3|
            spec_len_sq(d) < crate::fixed::SCALE && sample == spec_unit(d);
        let fuzzed = Vec3::unit_vector(reflected).add(sample.scale(self.fuzz));
        proof {
            assert(spec_len_sq(d) < crate::fixed::SCALE && fuzzed == spec_vadd(
                spec_unit(spec_reflect(r_in.direction, rec.normal)),
                spec_vscale(spec_unit(d), self.fuzz.bits as int),
            ));
        }
        let scattered = Ray::new(rec.p, fuzzed);
        let attenuation = self.albedo;
        Some((Some(scattered), attenuation))
    }

    /// Metals emit nothing.
    pub fn emitted(&self, _u: Fx, _v: Fx, _p: Vec3) -> (r: Vec3)
        ensures
            r == spec_black(),
    {
        Vec3::new(Fx::zero(), Fx::zero(), Fx::zero())
    }
}

impl Dielectric {
    /// A clear material with the given refraction index.
    pub fn new(refraction_index: Fx) -> (r: Dielectric)
        ensures
            r.refraction_index == refraction_index,
    {
        Dielectric { refraction_index }
    }

    /// Schlick's reflectance approximation.
    pub fn reflectance(cosine: Fx, ref_idx: Fx) -> (r: Fx)
        ensures
            r.bits == spec_reflectance(cosine.bits as int, ref_idx.bits as int),
    {
        let one = Fx::one();
        let mut r0 = one.sub(ref_idx).div(one.add(ref_idx));
        r0 = r0.mul(r0);
        let m = one.sub(cosine);
        let m2 = m.mul(m);
        let m4 = m2.mul(m2);
        let m5 = m4.mul(m);
        r0.add(one.sub(r0).mul(m5))
    }

    /// Always scatters without absorbing: the unit incoming direction is
    /// reflected when refraction is impossible or a random draw falls below
    /// the Schlick reflectance, and refracted otherwise.  Above the
    /// critical angle the reflection is certain, whatever the draw.
    pub fn scatter(&self, r_in: &Ray, rec: &HitRecord) -> (res: Option<(Option<Ray>, Vec3)>)
        ensures
            res is Some,
            res matches Some(sc) ==> sc.0 is Some && sc.1 == spec_white(),
            res matches Some(sc) ==> (sc.0 matches Some(sr) ==> sr.origin == rec.p && (sr.direction
                == spec_reflect(spec_unit(r_in.direction), rec.normal) || sr.direction
                == spec_refract(
                spec_unit(r_in.direction),
                rec.normal,
                spec_diel_ri(*self, rec.front_face),
            ))),
            spec_cannot_refract(*self, *r_in, *rec) ==> (res matches Some(sc) && sc.0 matches Some(
                sr,
            ) ==> sr.direction == spec_reflect(spec_unit(r_in.direction), rec.normal)),
    {
        let one = Fx::one();
        let attenuation = Vec3::new(one, one, one);
        let ri = if rec.front_face {
            one.div(self.refraction_index)
        } else {
            self.refraction_index
        };
        let unit_direction = Vec3::unit_vector(r_in.direction);
        let d = unit_direction.neg().dot(&rec.normal);
        let cos_theta = if d.bits <= one.bits {
            d
        } else {
            one
        };
        let sin_theta = one.sub(cos_theta.mul(cos_theta)).sqrt();
        let cannot_refract = ri.mul(sin_theta).bits > SCALE;
        if cannot_refract || Dielectric::reflectance(cos_theta, ri).bits > random_double().bits {
            let direction = Vec3::reflect(unit_direction, rec.normal);
            let scattered = Ray::new(rec.p, direction);
            Some((Some(scattered), attenuation))
        } else {
            let direction = Vec3::refract(&unit_direction, &rec.normal, ri);
            let scattered = Ray::new(rec.p, direction);
            Some((Some(scattered), attenuation))
        }
    }

    /// Clear materials emit nothing.
    pub fn emitted(&self, _u: Fx, _v: Fx, _p: Vec3) -> (r: Vec3)
        ensures
            r == spec_black(),
    {
        Vec3::new(Fx::zero(), Fx::zero(), Fx::zero())
    }
}

impl DiffuseLight {
    /// A light of one solid colour.
    pub fn new(albedo: Vec3) -> (r: DiffuseLight)
        ensures
            *r.texture == Texture::Solid(SolidColor { albedo }),
    {
        DiffuseLight { texture: Box::new(Texture::Solid(SolidColor::new(albedo))) }
    }

    /// A light over a texture.
    pub fn new_from_texture(texture: Box<Texture>) -> (r: DiffuseLight)
        ensures
            r.texture == texture,
    {
        DiffuseLight { texture }
    }

    /// Lights never scatter: any path reaching one ends there.
    pub fn scatter(&self, _r_in: &Ray, _rec: &HitRecord) -> (res: Option<(Option<Ray>, Vec3)>)
        ensures
            res is None,
    {
        None
    }

    /// The emitted radiance: the texture value.
    pub fn emitted(&self, u: Fx, v: Fx, p: Vec3) -> (r: Vec3)
        requires
            texture_wf(*self.texture),
        ensures
            r == spec_texture_value(*self.texture, u.bits as int, v.bits as int, p),
    {
        self.texture.value(u, v, p)
    }
}

impl Isotropic {
    /// A volume scatterer of one solid colour.
    pub fn new_with_color(albedo: Vec3) -> (r: Isotropic)
        ensures
            *r.texture == Texture::Solid(SolidColor { albedo }),
    {
        Isotropic { texture: Box::new(Texture::Solid(SolidColor::new(albedo))) }
    }

    /// A volume scatterer over a texture.
    pub fn new_with_texture(texture: Box<Texture>) -> (r: Isotropic)
        ensures
            r.texture == texture,
    {
        Isotropic { texture }
    }

    /// Always scatters, in a uniformly random direction from the hit point,
    /// attenuated by the texture value.
    pub fn scatter(&self, _r_in: &Ray, rec: &HitRecord) -> (res: Option<(Option<Ray>, Vec3)>)
        requires
            texture_wf(*self.texture),
        ensures
            res is Some,
            res matches Some(sc) ==> sc.0 is Some && sc.1 == spec_texture_value(
                *self.texture,
                rec.u.bits as int,
                rec.v.bits as int,
                rec.p,
            ),
            res matches Some(sc) ==> (sc.0 matches Some(sr) ==> sr.origin == rec.p && exists|
                d: Vec3,
            | spec_len_sq(d) < crate::fixed::SCALE && sr.direction == #[trigger] spec_unit(d)),
    {
        let sample = Vec3::random_unit_vector();
        proof {
            let d = choose|d: Vec3|
                spec_len_sq(d) < crate::fixed::SCALE && sample == spec_unit(d);
            assert(spec_len_sq(d) < crate::fixed::SCALE && sample == spec_unit(d));
        }
        let scattered = Ray::new(rec.p, sample);
        let attenuation = self.texture.value(rec.u, rec.v, rec.p);
        Some((Some(scattered), attenuation))
    }

    /// Volume scatterers emit nothing.
    pub fn emitted(&self, _u: Fx, _v: Fx, _p: Vec3) -> (r: Vec3)
        ensures
            r == spec_black(),
    {
        Vec3::new(Fx::zero(), Fx::zero(), Fx::zero())
    }
}

impl Material {
    /// The scattered ray and attenuation of the variant's behaviour.  Every
    /// material but a light scatters; the scattered ray always starts at
    /// the hit point; the attenuation is the variant's; and a dielectric
    /// above the critical angle always reflects.
    pub fn scatter(&self, r_in: &Ray, rec: &HitRecord) -> (res: Option<(Option<Ray>, Vec3)>)
        requires
            material_wf(*self),
        ensures
            (res is Some) == !(self is DiffuseLight),
            res matches Some(sc) ==> sc.0 is Some && sc.1 == spec_attenuation(*self, *rec),
            res matches Some(sc) ==> (sc.0 matches Some(sr) ==> sr.origin == rec.p),
            self matches Material::Dielectric(d) ==> (spec_cannot_refract(*d, *r_in, *rec) ==> (res
                matches Some(sc) && sc.0 matches Some(sr) ==> sr.direction == spec_reflect(
                spec_unit(r_in.direction),
                rec.normal,
            ))),
    {
        match self {
            Material::Lambertian(l) => l.scatter(r_in, rec),
            Material::Metal(m) => m.scatter(r_in, rec),
            Material::Dielectric(d) => d.scatter(r_in, rec),
            Material::DiffuseLight(d) => d.scatter(r_in, rec),
            Material::Isotropic(i) => i.scatter(r_in, rec),
        }
    }

    /// The emitted radiance of the variant's behaviour.
    pub fn emitted(&self, u: Fx, v: Fx, p: Vec3) -> (r: Vec3)
        requires
            material_wf(*self),
        ensures
            r == spec_emitted(*self, u.bits as int, v.bits as int, p),
    {
        match self {
            Material::Lambertian(l) => l.emitted(u, v, p),
            Material::Metal(m) => m.emitted(u, v, p),
            Material::Dielectric(d) => d.emitted(u, v, p),
            Material::DiffuseLight(d) => d.emitted(u, v, p),
            Material::Isotropic(i) => i.emitted(u, v, p),
        }
    }
}

} // verus!
