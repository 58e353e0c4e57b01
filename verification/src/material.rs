//! Surface materials and the branches of their scattering rules.
use crate::color::Color;
use crate::hittable::HitRecord;
use crate::ray::Ray;
use crate::scalar::{Scalar, ONE_BITS};
use crate::vec3::Vec3;
use vstd::prelude::*;

verus! {

/// What a surface makes of an incoming ray.
#[derive(Clone, Copy, Debug)]
pub struct Scattered {
    /// False where the surface absorbs the ray.
    pub is_scattered: bool,
    /// The factor, channel by channel, by which the surface dims the light
    /// that arrives along `ray`.
    pub attenuation: Color,
    /// The outgoing ray.
    pub ray: Ray,
}

/// A diffuse surface.
#[derive(Clone, Copy, Debug)]
pub struct Lambertian {
    pub albedo: Color,
}

/// A reflecting surface; `fuzz` blurs the reflection. One made by `new` has
/// its fuzz in `[0, 1]`.
#[derive(Clone, Copy, Debug)]
pub struct Metal {
    pub albedo: Color,
    pub fuzz: Scalar,
}

/// A transparent surface.
#[derive(Clone, Copy, Debug)]
pub struct Dielectric {
    pub refraction_index: Scalar,
}

#[derive(Clone, Copy, Debug)]
pub enum MaterialType {
    Lambertian(Lambertian),
    Metal(Metal),
    Dielectric(Dielectric),
}

/// What a transparent surface does with a ray.
#[derive(Clone, Copy, Debug, PartialEq, Eq, Structural)]
pub enum Bend {
    Reflect,
    Refract,
}

/// The colour `(1, 1, 1)`.
pub open spec fn white() -> Color {
    Vec3(Scalar { bits: ONE_BITS }, Scalar { bits: ONE_BITS }, Scalar { bits: ONE_BITS })
}

impl Lambertian {
    pub fn new(albedo: Color) -> (r: Lambertian)
        ensures
            r.albedo == albedo,
    {
        Lambertian { albedo }
    }

    /// Scatters off the hit point toward `target`, the sum of the surface
    /// normal and a random unit vector. Where the two nearly cancel, the
    /// normal itself is the direction. The ray is never absorbed.
    pub fn scatter(&self, rec: &HitRecord, target: Vec3) -> (s: Scattered)
        ensures
            s.is_scattered,
            s.attenuation == self.albedo,
            s.ray.origin == rec.p,
            s.ray.dir == if target.spec_near_zero() {
                rec.normal
            } else {
                target
            },
    {
        let mut scatter_direction = target;
        if scatter_direction.near_zero() {
            scatter_direction = rec.normal;
        }
        Scattered {
            is_scattered: true,
            attenuation: self.albedo,
            ray: Ray::new(rec.p, scatter_direction),
        }
    }
}

impl Metal {
    /// The fuzz that a metal gets for a requested one: the request brought
    /// into `[0, 1]`, and 1 for a request that is not a number.
    pub open spec fn spec_fuzz(fuzz: Scalar) -> Scalar {
        if fuzz.below(Scalar { bits: ONE_BITS }) {
            if fuzz.below(Scalar { bits: 0 }) {
                Scalar { bits: 0 }
            } else {
                fuzz
            }
        } else {
            Scalar { bits: ONE_BITS }
        }
    }

    pub fn new(albedo: Color, fuzz: Scalar) -> (r: Metal)
        ensures
            r.albedo == albedo,
            r.fuzz == Metal::spec_fuzz(fuzz),
    {
        let fuzz = if fuzz.lt(&Scalar::one()) {
            if fuzz.lt(&Scalar::zero()) {
                Scalar::zero()
            } else {
                fuzz
            }
        } else {
            Scalar::one()
        };
        Metal { albedo, fuzz }
    }

    /// Scatters off the hit point along `direction`, the fuzzed mirror image
    /// of the incoming direction. `facing` is the dot product of `direction`
    /// and the surface normal: the ray is absorbed unless it is positive,
    /// that is unless the ray leaves the surface.
    pub fn scatter(&self, rec: &HitRecord, direction: Vec3, facing: Scalar) -> (s: Scattered)
        ensures
            s.is_scattered == (Scalar { bits: 0 }).below(facing),
            s.attenuation == self.albedo,
            s.ray.origin == rec.p,
            s.ray.dir == direction,
    {
        let ray = Ray::new(rec.p, direction);
        let is_scattered = facing.gt(&Scalar::zero());
        Scattered { is_scattered, ray, attenuation: self.albedo }
    }
}

impl Dielectric {
    pub fn new(refraction_index: Scalar) -> (r: Dielectric)
        ensures
            r.refraction_index == refraction_index,
    {
        Dielectric { refraction_index }
    }

    /// The ratio of the refraction indices on the ray's way: `reciprocal`,
    /// which the caller computes as one over the material's index, where the
    /// ray enters the body from outside, and the index itself where it leaves.
    pub fn refraction_ratio(&self, front_face: bool, reciprocal: Scalar) -> (r: Scalar)
        ensures
            r == if front_face {
                reciprocal
            } else {
                self.refraction_index
            },
    {
        if front_face {
            reciprocal
        } else {
            self.refraction_index
        }
    }

    /// The cosine of the angle of incidence: `facing`, the dot product of the
    /// reversed unit direction of the ray with the normal, but at most one,
    /// which rounding may have let it exceed.
    pub fn cos_theta(facing: Scalar) -> (r: Scalar)
        ensures
            r == if facing.below(Scalar { bits: ONE_BITS }) {
                facing
            } else {
                Scalar { bits: ONE_BITS }
            },
    {
        if facing.lt(&Scalar::one()) {
            facing
        } else {
            Scalar::one()
        }
    }

    /// Whether Snell's law has no solution: `ratio_sine`, the refraction ratio
    /// times the sine of the angle of incidence, is above one. Such a ray is
    /// reflected totally.
    pub fn cannot_refract(ratio_sine: Scalar) -> (r: bool)
        ensures
            r == (Scalar { bits: ONE_BITS }).below(ratio_sine),
    {
        ratio_sine.gt(&Scalar::one())
    }

    /// Reflection or refraction for a ray that could be refracted: it is
    /// reflected where the reflectance at its angle is above `draw`, a number
    /// drawn uniformly from `[0, 1)`.
    pub fn bend(reflectance: Scalar, draw: Scalar) -> (r: Bend)
        ensures
            r == if draw.below(reflectance) {
                Bend::Reflect
            } else {
                Bend::Refract
            },
    {
        if reflectance.gt(&draw) {
            Bend::Reflect
        } else {
            Bend::Refract
        }
    }

    /// Reflection or refraction: the ray is reflected where it cannot be
    /// refracted (`ratio_sine` is above one) or where the reflectance at its
    /// angle is above `draw`, a number drawn uniformly from `[0, 1)`;
    /// otherwise it is refracted.
    pub fn reflect_or_refract(ratio_sine: Scalar, reflectance: Scalar, draw: Scalar) -> (r: Bend)
        ensures
            r == if (Scalar { bits: ONE_BITS }).below(ratio_sine) || draw.below(reflectance) {
                Bend::Reflect
            } else {
                Bend::Refract
            },
    {
        if Dielectric::cannot_refract(ratio_sine) {
            Bend::Reflect
        } else {
            Dielectric::bend(reflectance, draw)
        }
    }

    /// Scatters off the hit point along `direction`, the reflected or
    /// refracted direction. Glass absorbs nothing: the attenuation is white
    /// and the ray is never absorbed.
    pub fn scatter(&self, rec: &HitRecord, direction: Vec3) -> (s: Scattered)
        ensures
            s.is_scattered,
            s.attenuation == white(),
            s.ray.origin == rec.p,
            s.ray.dir == direction,
    {
        let attenuation = Color::new(Scalar::one(), Scalar::one(), Scalar::one());
        Scattered { is_scattered: true, ray: Ray::new(rec.p, direction), attenuation }
    }
}

impl MaterialType {
    pub fn lambertian(albedo: Color) -> (r: MaterialType)
        ensures
            r == MaterialType::Lambertian(Lambertian { albedo }),
    {
        MaterialType::Lambertian(Lambertian::new(albedo))
    }

    pub fn metal(albedo: Color, fuzz: Scalar) -> (r: MaterialType)
        ensures
            r == MaterialType::Metal(Metal { albedo, fuzz: Metal::spec_fuzz(fuzz) }),
    {
        MaterialType::Metal(Metal::new(albedo, fuzz))
    }

    pub fn dielectric(refraction_index: Scalar) -> (r: MaterialType)
        ensures
            r == MaterialType::Dielectric(Dielectric { refraction_index }),
    {
        MaterialType::Dielectric(Dielectric::new(refraction_index))
    }
}

/// A metal's fuzz is a number between zero and one, whatever was asked for.
pub proof fn lemma_fuzz_in_range(fuzz: Scalar)
    ensures
        (Scalar { bits: 0 }).at_most(Metal::spec_fuzz(fuzz)),
        Metal::spec_fuzz(fuzz).at_most(Scalar { bits: ONE_BITS }),
{
}

} // verus!
