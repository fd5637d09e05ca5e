//! How a surface sends a ray on.

use vstd::prelude::*;
use crate::hittable::HitRecord;
use crate::ray::Ray;
use crate::scalar::Scalar;
use crate::vec3::Vec3;

verus! {

/// A colour: red, green and blue, each from zero to one.
pub type Color = Vec3;

/// A diffuse surface.
#[derive(Clone, Copy, Debug, PartialEq, Eq, Structural)]
pub struct Lambertian {
    pub albedo: Color,
}

/// A mirror, blurred by `fuzz`.
#[derive(Clone, Copy, Debug, PartialEq, Eq, Structural)]
pub struct Metal {
    pub albedo: Color,
    pub fuzz: Scalar,
}

/// A clear solid such as glass.
#[derive(Clone, Copy, Debug, PartialEq, Eq, Structural)]
pub struct Dielectric {
    /// The refractive index of the solid over that of what surrounds it.
    pub refraction_index: Scalar,
}

/// The surfaces that the renderer knows.
#[derive(Clone, Copy, Debug, PartialEq, Eq, Structural)]
pub enum Material {
    Lambertian(Lambertian),
    Metal(Metal),
    Dielectric(Dielectric),
}

impl Lambertian {
    /// The direction in which a diffuse surface sends the ray on.
    /// `scatter_direction` is the surface normal plus a random unit vector;
    /// where the two cancel the normal itself is taken.
    pub open spec fn direction_spec(rec: HitRecord, scatter_direction: Vec3) -> Vec3 {
        if scatter_direction.near_zero() {
            rec.normal
        } else {
            scatter_direction
        }
    }

    /// Scatters from the hit point along `scatter_direction`, the normal
    /// plus a random unit vector, or along the normal where that sum is near
    /// zero. The ray is never absorbed, and keeps the albedo's share of its
    /// light.
    pub fn scatter(&self, rec: &HitRecord, scatter_direction: Vec3) -> (r: Option<(Ray, Color)>)
        ensures
            r == Some(
                (
                    (Ray {
                        origin: rec.p,
                        direction: Self::direction_spec(*rec, scatter_direction),
                    }),
                    self.albedo,
                ),
            ),
    {
        let mut scatter_direction = scatter_direction;
        if crate::vec3::vec3_near_zero(&scatter_direction) {
            scatter_direction = rec.normal;
        }
        let scattered = Ray::new(rec.p, scatter_direction);
        let attenuation = self.albedo;
        Some((scattered, attenuation))
    }
}

impl Metal {
    /// The fuzz that takes effect: `fuzz`, but `1.0` where `fuzz` is larger
    /// or a NaN.
    pub open spec fn fuzz_factor_spec(self) -> Scalar {
        if self.fuzz.lt_spec(Scalar::one_spec()) {
            self.fuzz
        } else {
            Scalar::one_spec()
        }
    }

    /// The factor by which the random unit vector is scaled before it is
    /// added to the normalized reflection.
    pub fn fuzz_factor(&self) -> (r: Scalar)
        ensures
            r == self.fuzz_factor_spec(),
    {
        proof {
            lemma_fuzz_factor_capped(*self);
        }
        self.fuzz.min(Scalar::one())
    }

    /// Scatters from the hit point along `reflected`: the incoming direction
    /// mirrored about the normal and normalized, plus a random unit vector
    /// scaled by the fuzz factor. The ray is never absorbed, also where the
    /// fuzz sends it below the surface.
    pub fn scatter(&self, rec: &HitRecord, reflected: Vec3) -> (r: Option<(Ray, Color)>)
        ensures
            r == Some(((Ray { origin: rec.p, direction: reflected }), self.albedo)),
    {
        let scattered = Ray::new(rec.p, reflected);
        let attenuation = self.albedo;
        Some((scattered, attenuation))
    }
}

impl Dielectric {
    /// The refractive index that the ray meets: the reciprocal of the
    /// solid's index where the ray enters, the index itself where it leaves.
    pub fn relative_index(&self, front_face: bool, reciprocal: Scalar) -> (r: Scalar)
        ensures
            r == if front_face {
                reciprocal
            } else {
                self.refraction_index
            },
    {
        if front_face {
            reciprocal
        } else {
            self.refraction_index
        }
    }

    /// Whether Snell's law has no solution, so that the ray must be
    /// mirrored. `bend` is the relative index times the sine of the angle of
    /// incidence.
    pub open spec fn cannot_refract_spec(bend: Scalar) -> bool {
        Scalar::one_spec().lt_spec(bend)
    }

    /// Whether the ray is mirrored: always where it cannot be refracted,
    /// else where the reflectance exceeds `draw`, a uniform random number in
    /// `[0, 1)`.
    pub open spec fn reflects_spec(bend: Scalar, reflectance: Scalar, draw: Scalar) -> bool {
        Self::cannot_refract_spec(bend) || draw.lt_spec(reflectance)
    }

    /// Whether the ray must be mirrored because it cannot be refracted.
    pub fn cannot_refract(bend: Scalar) -> (r: bool)
        ensures
            r == Self::cannot_refract_spec(bend),
    {
        bend.gt(Scalar::one())
    }

    /// Whether the ray is mirrored rather than refracted.
    pub fn reflects(bend: Scalar, reflectance: Scalar, draw: Scalar) -> (r: bool)
        ensures
            r == Self::reflects_spec(bend, reflectance, draw),
    {
        Self::cannot_refract(bend) || reflectance.gt(draw)
    }

    /// Scatters from the hit point along `direction`, the mirrored or the
    /// refracted direction. The ray is never absorbed and loses no light.
    pub fn scatter(&self, rec: &HitRecord, direction: Vec3) -> (r: Option<(Ray, Color)>)
        ensures
            r == Some(
                ((Ray { origin: rec.p, direction }), Vec3::splat_spec(Scalar::one_spec())),
            ),
    {
        let attenuation = Vec3::splat(Scalar::one());
        let scattered = Ray::new(rec.p, direction);
        Some((scattered, attenuation))
    }
}

impl Material {
    /// The share of the light that the surface keeps, by colour channel.
    pub open spec fn attenuation_spec(self) -> Color {
        match self {
            Material::Lambertian(m) => m.albedo,
            Material::Metal(m) => m.albedo,
            Material::Dielectric(_) => Vec3::splat_spec(Scalar::one_spec()),
        }
    }

    /// The direction of the scattered ray, given the one that the surface's
    /// own rule proposes.
    pub open spec fn direction_spec(self, rec: HitRecord, proposed: Vec3) -> Vec3 {
        match self {
            Material::Lambertian(_) => Lambertian::direction_spec(rec, proposed),
            Material::Metal(_) => proposed,
            Material::Dielectric(_) => proposed,
        }
    }

    /// The scattered ray and its attenuation, or nothing where the surface
    /// absorbs the ray. `proposed` is the direction that the surface's own
    /// rule computes from the incoming ray. None of the three surfaces
    /// absorbs.
    pub fn scatter(&self, rec: &HitRecord, proposed: Vec3) -> (r: Option<(Ray, Color)>)
        ensures
            r == Some(
                (
                    (Ray { origin: rec.p, direction: self.direction_spec(*rec, proposed) }),
                    self.attenuation_spec(),
                ),
            ),
    {
        match self {
            Material::Lambertian(m) => m.scatter(rec, proposed),
            Material::Metal(m) => m.scatter(rec, proposed),
            Material::Dielectric(m) => m.scatter(rec, proposed),
        }
    }
}

/// A scattered ray has a direction that can be followed: a diffuse surface
/// never sends a ray along a direction that is near zero, unless the normal
/// that it was given is.
pub proof fn lemma_lambertian_direction_usable(rec: HitRecord, scatter_direction: Vec3)
    requires
        !rec.normal.near_zero(),
    ensures
        !Lambertian::direction_spec(rec, scatter_direction).near_zero(),
{
}

/// The fuzz that takes effect is never above one and never a NaN.
pub proof fn lemma_fuzz_factor_capped(metal: Metal)
    ensures
        !Scalar::one_spec().lt_spec(metal.fuzz_factor_spec()),
        !metal.fuzz_factor_spec().nan(),
        metal.fuzz_factor_spec() == metal.fuzz.min_spec(Scalar::one_spec()),
{
    crate::scalar::lemma_rank_orders_values(metal.fuzz, Scalar::one_spec());
}

/// Total internal reflection is a rule, not a chance: where the ray cannot
/// be refracted it is mirrored whatever number is drawn.
pub proof fn lemma_total_internal_reflection(bend: Scalar, reflectance: Scalar, draw: Scalar)
    requires
        Dielectric::cannot_refract_spec(bend),
    ensures
        Dielectric::reflects_spec(bend, reflectance, draw),
{
}

} // verus!
